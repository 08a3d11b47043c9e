//! Reading one desktop entry: the `[Desktop Entry]` section of a file's
//! bytes, its `key=value` lines, and the launchable entry they describe.
//! Everything here works on the UTF-8 bytes of the file.

use vstd::prelude::*;
use vstd::slice::*;
use vstd::string::*;
use vstd::utf8::{encode_utf8, valid_utf8};
use crate::bytes::{
    ascii_ended, byte_index, bytes_eq, eq_ignore_case, find, find_byte, find_spec,
    lemma_ascii_literal, lemma_byte_index, lemma_find_is_first, lemma_remove_valid,
    lemma_split_valid, lemma_trim_valid, remove_all, remove_all_spec, same_ignoring_case, trim,
    trim_spec, EQUALS, HASH, NEWLINE,
};
use crate::config::{AppEntry, EntryText};
use crate::text::{
    lemma_ascii_byte_valid, lemma_concat_valid, lemma_cut_after_ascii, lemma_slice_valid,
    lemma_start_cuttable, text_from_utf8,
};

verus! {

/// Key and value of a line of the form `key = value`, each without the
/// white space around it. A line without `=` has none, nor has a comment,
/// which starts with `#`.
pub open spec fn assignment_spec(line: Seq<u8>) -> Option<(Seq<u8>, Seq<u8>)> {
    let t = trim_spec(line);
    let i = byte_index(t, EQUALS);
    if i < t.len() && t[0] != HASH {
        Some((trim_spec(t.take(i as int)), trim_spec(t.skip(i as int + 1))))
    } else {
        None
    }
}

/// Splits a line at its first `=`.
pub fn assignment<'a>(line: &'a [u8]) -> (pair: Option<(&'a [u8], &'a [u8])>)
    ensures
        match pair {
            Some((k, v)) => assignment_spec(line@) == Some((k@, v@)),
            None => assignment_spec(line@).is_none(),
        },
{
    let t = trim(line);
    let i = find_byte(t, EQUALS);
    if i < t.len() && t[0] != HASH {
        let key = trim(slice_subrange(t, 0, i));
        let value = trim(slice_subrange(t, i + 1, t.len()));
        Some((key, value))
    } else {
        None
    }
}

/// The value that the lines of `section` give to `key`, where `found` is
/// what earlier lines gave it: a later line overrides an earlier one.
pub open spec fn value_in(section: Seq<u8>, key: Seq<u8>, found: Option<Seq<u8>>) -> Option<Seq<u8>>
    decreases section.len(),
{
    if section.len() == 0 {
        found
    } else {
        let end = byte_index(section, NEWLINE);
        let next = match assignment_spec(section.take(end as int)) {
            Some((k, v)) => if k == key {
                Some(v)
            } else {
                found
            },
            None => found,
        };
        if end < section.len() {
            value_in(section.skip(end as int + 1), key, next)
        } else {
            next
        }
    }
}

/// The value of `key` in `section`: that of the last line which assigns it.
pub open spec fn value_of(section: Seq<u8>, key: Seq<u8>) -> Option<Seq<u8>> {
    value_in(section, key, None)
}

/// The bytes of an optional slice.
pub open spec fn bytes_of(s: Option<&[u8]>) -> Option<Seq<u8>> {
    match s {
        Some(s) => Some(s@),
        None => None,
    }
}

/// Looks `key` up in the lines of `section`.
pub fn lookup<'a>(section: &'a [u8], key: &[u8]) -> (value: Option<&'a [u8]>)
    ensures
        bytes_of(value) == value_of(section@, key@),
{
    let mut rest: &[u8] = section;
    let mut found: Option<&[u8]> = None;
    while rest.len() > 0
        invariant
            value_of(section@, key@) == value_in(rest@, key@, bytes_of(found)),
        decreases rest@.len(),
    {
        let end = find_byte(rest, NEWLINE);
        let line = slice_subrange(rest, 0, end);
        match assignment(line) {
            Some((k, v)) => {
                if bytes_eq(k, key) {
                    found = Some(v);
                }
            },
            None => {},
        }
        if end < rest.len() {
            rest = slice_subrange(rest, end + 1, rest.len());
        } else {
            rest = slice_subrange(rest, rest.len(), rest.len());
        }
    }
    found
}

/// The lines between the header `[Desktop Entry]` and the next line that
/// starts with `[`, or the end; `None` where the header is missing.
pub open spec fn section_spec(content: Seq<u8>) -> Option<Seq<u8>> {
    let header = "[Desktop Entry]".spec_bytes();
    match find_spec(content, header) {
        None => None,
        Some(at) => {
            let rest = content.skip(at + header.len());
            match find_spec(rest, "\n[".spec_bytes()) {
                Some(end) => Some(rest.take(end)),
                None => Some(rest),
            }
        },
    }
}

/// Cuts the `[Desktop Entry]` section out of a file.
pub fn section<'a>(content: &'a [u8]) -> (body: Option<&'a [u8]>)
    ensures
        bytes_of(body) == section_spec(content@),
{
    let header = "[Desktop Entry]".as_bytes();
    match find(content, header) {
        None => None,
        Some(at) => {
            let total = content.len();
            let rest = slice_subrange(content, at + header.len(), total);
            match find(rest, "\n[".as_bytes()) {
                Some(end) => Some(slice_subrange(rest, 0, end)),
                None => Some(rest),
            }
        },
    }
}

/// A desktop entry as the bytes of its fields.
pub struct DesktopText {
    pub name: Seq<u8>,
    pub genc: Option<Seq<u8>>,
    pub desc: Option<Seq<u8>>,
    pub icon: Option<Seq<u8>>,
    pub command: Seq<u8>,
}

/// The command of an entry without the placeholders for files and
/// addresses, each removed together with the space or `=` before it, one
/// kind after the other.
pub open spec fn cleaned_spec(command: Seq<u8>) -> Seq<u8> {
    let a = remove_all_spec(command, " %F".spec_bytes());
    let b = remove_all_spec(a, " %f".spec_bytes());
    let c = remove_all_spec(b, " %U".spec_bytes());
    let d = remove_all_spec(c, " %u".spec_bytes());
    let e = remove_all_spec(d, "=%F".spec_bytes());
    let f = remove_all_spec(e, "=%f".spec_bytes());
    let g = remove_all_spec(f, "=%U".spec_bytes());
    remove_all_spec(g, "=%u".spec_bytes())
}

/// Whether a looked-up value is `true`, in any case of its letters.
pub open spec fn is_true(value: Option<Seq<u8>>) -> bool {
    match value {
        Some(v) => same_ignoring_case(v, "true".spec_bytes()),
        None => false,
    }
}

/// Whether the section describes something that is listed: it is not
/// hidden, it is an application, and it needs no terminal unless one is
/// configured.
pub open spec fn listed(section: Seq<u8>, has_terminal: bool) -> bool {
    &&& !is_true(value_of(section, "NoDisplay".spec_bytes()))
    &&& !is_true(value_of(section, "Terminal".spec_bytes())) || has_terminal
    &&& value_of(section, "Type".spec_bytes()) == Some("Application".spec_bytes())
}

/// The entry that a file describes, `terminal` being the configured
/// terminal emulator: `None` where the file has no section, the section is
/// not listed, or it lacks a name or a command.
pub open spec fn entry_spec(content: Seq<u8>, terminal: Option<Seq<u8>>) -> Option<DesktopText> {
    match section_spec(content) {
        None => None,
        Some(section) => {
            let name = value_of(section, "Name".spec_bytes());
            let command = value_of(section, "Exec".spec_bytes());
            if !listed(section, terminal.is_some()) {
                None
            } else if name.is_none() || command.is_none() {
                None
            } else if name.unwrap().len() == 0 || command.unwrap().len() == 0 {
                None
            } else {
                let cleaned = cleaned_spec(command.unwrap());
                Some(
                    DesktopText {
                        name: name.unwrap(),
                        genc: value_of(section, "GenericName".spec_bytes()),
                        desc: value_of(section, "Comment".spec_bytes()),
                        icon: value_of(section, "Icon".spec_bytes()),
                        command: if is_true(value_of(section, "Terminal".spec_bytes())) {
                            terminal.unwrap() + seq![32u8] + cleaned
                        } else {
                            cleaned
                        },
                    },
                )
            }
        },
    }
}

/// The command without its placeholders.
pub fn clean_command(command: &[u8]) -> (cleaned: Vec<u8>)
    ensures
        cleaned@ == cleaned_spec(command@),
{
    let a = remove_all(command, " %F".as_bytes());
    let b = remove_all(a.as_slice(), " %f".as_bytes());
    let c = remove_all(b.as_slice(), " %U".as_bytes());
    let d = remove_all(c.as_slice(), " %u".as_bytes());
    let e = remove_all(d.as_slice(), "=%F".as_bytes());
    let f = remove_all(e.as_slice(), "=%f".as_bytes());
    let g = remove_all(f.as_slice(), "=%U".as_bytes());
    remove_all(g.as_slice(), "=%u".as_bytes())
}

fn value_is_true(value: Option<&[u8]>) -> (yes: bool)
    ensures
        yes == is_true(bytes_of(value)),
{
    match value {
        Some(v) => eq_ignore_case(v, "true".as_bytes()),
        None => false,
    }
}

/// A parsed entry as owned bytes.
#[derive(Debug, Clone, PartialEq, Eq)]
pub struct DesktopEntry {
    pub name: Vec<u8>,
    pub genc: Option<Vec<u8>>,
    pub desc: Option<Vec<u8>>,
    pub icon: Option<Vec<u8>>,
    pub command: Vec<u8>,
}

/// The bytes of an optional vector.
pub open spec fn owned_bytes(v: Option<Vec<u8>>) -> Option<Seq<u8>> {
    match v {
        Some(v) => Some(v@),
        None => None,
    }
}

impl View for DesktopEntry {
    type V = DesktopText;

    open spec fn view(&self) -> DesktopText {
        DesktopText {
            name: self.name@,
            genc: owned_bytes(self.genc),
            desc: owned_bytes(self.desc),
            icon: owned_bytes(self.icon),
            command: self.command@,
        }
    }
}

fn to_owned_bytes(s: &[u8]) -> (v: Vec<u8>)
    ensures
        v@ == s@,
{
    slice_to_vec(s)
}

fn to_owned_option(s: Option<&[u8]>) -> (v: Option<Vec<u8>>)
    ensures
        owned_bytes(v) == bytes_of(s),
{
    match s {
        Some(s) => Some(slice_to_vec(s)),
        None => None,
    }
}

/// Reads the entry that the bytes of a desktop file describe. `terminal` is
/// the configured terminal emulator, which is put before the command of an
/// entry that asks for one.
pub fn parse_desktop_bytes(content: &[u8], terminal: Option<&[u8]>) -> (entry: Option<DesktopEntry>)
    ensures
        match entry {
            Some(e) => entry_spec(content@, bytes_of(terminal)) == Some(e@),
            None => entry_spec(content@, bytes_of(terminal)).is_none(),
        },
{
    let body = match section(content) {
        Some(body) => body,
        None => {
            return None;
        },
    };
    if value_is_true(lookup(body, "NoDisplay".as_bytes())) {
        return None;
    }
    let in_terminal = value_is_true(lookup(body, "Terminal".as_bytes()));
    if in_terminal && terminal.is_none() {
        return None;
    }
    match lookup(body, "Type".as_bytes()) {
        Some(kind) => {
            if !bytes_eq(kind, "Application".as_bytes()) {
                return None;
            }
        },
        None => {
            return None;
        },
    }
    let name = match lookup(body, "Name".as_bytes()) {
        Some(name) => name,
        None => {
            return None;
        },
    };
    let command = match lookup(body, "Exec".as_bytes()) {
        Some(command) => command,
        None => {
            return None;
        },
    };
    if name.len() == 0 || command.len() == 0 {
        return None;
    }
    let cleaned = clean_command(command);
    let full = if in_terminal {
        match terminal {
            Some(t) => {
                let mut full = slice_to_vec(t);
                full.push(32u8);
                let mut cleaned = cleaned;
                let ghost tail = cleaned@;
                full.append(&mut cleaned);
                assert(full@ =~= t@ + seq![32u8] + tail);
                full
            },
            None => cleaned,
        }
    } else {
        cleaned
    };
    Some(
        DesktopEntry {
            name: to_owned_bytes(name),
            genc: to_owned_option(lookup(body, "GenericName".as_bytes())),
            desc: to_owned_option(lookup(body, "Comment".as_bytes())),
            icon: to_owned_option(lookup(body, "Icon".as_bytes())),
            command: full,
        },
    )
}

/// The encoding of an optional text.
pub open spec fn encoded(text: Option<Seq<char>>) -> Option<Seq<u8>> {
    match text {
        Some(t) => Some(encode_utf8(t)),
        None => None,
    }
}

/// The bytes of an entry's fields.
pub open spec fn entry_bytes(entry: EntryText) -> DesktopText {
    DesktopText {
        name: encode_utf8(entry.name),
        genc: encoded(entry.genc),
        desc: encoded(entry.desc),
        icon: encoded(entry.icon),
        command: encode_utf8(entry.command),
    }
}

/// Whether an optional byte string is missing or a text.
pub open spec fn valid_or_none(v: Option<Seq<u8>>) -> bool {
    match v {
        Some(v) => valid_utf8(v),
        None => true,
    }
}

/// Whether every field of an entry encodes a text.
pub open spec fn readable(entry: DesktopText) -> bool {
    &&& valid_utf8(entry.name)
    &&& valid_or_none(entry.genc)
    &&& valid_or_none(entry.desc)
    &&& valid_or_none(entry.icon)
    &&& valid_utf8(entry.command)
}

fn optional_text(field: Option<Vec<u8>>) -> (text: Result<Option<String>, ()>)
    ensures
        text.is_ok() <==> valid_or_none(owned_bytes(field)),
        match text {
            Ok(t) => encoded(crate::config::text_of(t)) == owned_bytes(field),
            Err(_) => true,
        },
{
    match field {
        Some(bytes) => match text_from_utf8(bytes) {
            Some(t) => Ok(Some(t)),
            None => Err(()),
        },
        None => Ok(None),
    }
}

/// The bytes of an optional string.
pub open spec fn string_bytes(s: Option<String>) -> Option<Seq<u8>> {
    match s {
        Some(s) => Some(encode_utf8(s@)),
        None => None,
    }
}

/// Reads the entry that the text of a desktop file describes: the fields of
/// its `[Desktop Entry]` section, with the command cleaned of placeholders
/// and, where the entry asks for a terminal, put behind `term`. `None`
/// exactly where the file describes nothing to list.
pub fn parse_desktop_file(content: &str, term: &Option<String>) -> (entry: Option<AppEntry>)
    ensures
        match entry_spec(content.spec_bytes(), string_bytes(*term)) {
            Some(fields) => entry.is_some() && entry_bytes(entry.unwrap()@) == fields,
            None => entry.is_none(),
        },
{
    proof {
        vstd::utf8::encode_utf8_valid_utf8(content@);
        if term.is_some() {
            vstd::utf8::encode_utf8_valid_utf8(term.unwrap()@);
        }
        lemma_entry_readable(content.spec_bytes(), string_bytes(*term));
    }
    let terminal: Option<&[u8]> = match term {
        Some(t) => Some(t.as_str().as_bytes()),
        None => None,
    };
    let raw = match parse_desktop_bytes(content.as_bytes(), terminal) {
        Some(raw) => raw,
        None => {
            return None;
        },
    };
    let ghost fields = raw@;
    let DesktopEntry { name, genc, desc, icon, command } = raw;
    let name = match text_from_utf8(name) {
        Some(name) => name,
        None => {
            return None;
        },
    };
    let genc = match optional_text(genc) {
        Ok(genc) => genc,
        Err(_) => {
            return None;
        },
    };
    let desc = match optional_text(desc) {
        Ok(desc) => desc,
        Err(_) => {
            return None;
        },
    };
    let icon = match optional_text(icon) {
        Ok(icon) => icon,
        Err(_) => {
            return None;
        },
    };
    let command = match text_from_utf8(command) {
        Some(command) => command,
        None => {
            return None;
        },
    };
    Some(AppEntry { name, genc, desc, icon, command })
}

proof fn lemma_markers_ascii()
    ensures
        ascii_ended("[Desktop Entry]".spec_bytes()),
        ascii_ended("\n[".spec_bytes()),
        ascii_ended(" %F".spec_bytes()),
        ascii_ended(" %f".spec_bytes()),
        ascii_ended(" %U".spec_bytes()),
        ascii_ended(" %u".spec_bytes()),
        ascii_ended("=%F".spec_bytes()),
        ascii_ended("=%f".spec_bytes()),
        ascii_ended("=%U".spec_bytes()),
        ascii_ended("=%u".spec_bytes()),
{
    reveal_strlit("[Desktop Entry]");
    reveal_strlit("\n[");
    reveal_strlit(" %F");
    reveal_strlit(" %f");
    reveal_strlit(" %U");
    reveal_strlit(" %u");
    reveal_strlit("=%F");
    reveal_strlit("=%f");
    reveal_strlit("=%U");
    reveal_strlit("=%u");
    lemma_ascii_literal("[Desktop Entry]");
    lemma_ascii_literal("\n[");
    lemma_ascii_literal(" %F");
    lemma_ascii_literal(" %f");
    lemma_ascii_literal(" %U");
    lemma_ascii_literal(" %u");
    lemma_ascii_literal("=%F");
    lemma_ascii_literal("=%f");
    lemma_ascii_literal("=%U");
    lemma_ascii_literal("=%u");
}

proof fn lemma_assignment_valid(line: Seq<u8>)
    requires
        valid_utf8(line),
    ensures
        match assignment_spec(line) {
            Some((k, v)) => valid_utf8(k) && valid_utf8(v),
            None => true,
        },
{
    let t = trim_spec(line);
    lemma_trim_valid(line);
    lemma_split_valid(t, EQUALS);
    let i = byte_index(t, EQUALS);
    lemma_byte_index(t, EQUALS);
    if i < t.len() {
        lemma_trim_valid(t.take(i as int));
        lemma_trim_valid(t.skip(i as int + 1));
    }
}

proof fn lemma_value_in_valid(section: Seq<u8>, key: Seq<u8>, found: Option<Seq<u8>>)
    requires
        valid_utf8(section),
        valid_or_none(found),
    ensures
        valid_or_none(value_in(section, key, found)),
    decreases section.len(),
{
    if section.len() > 0 {
        let end = byte_index(section, NEWLINE);
        lemma_byte_index(section, NEWLINE);
        lemma_split_valid(section, NEWLINE);
        let line = section.take(end as int);
        lemma_assignment_valid(line);
        let next = match assignment_spec(line) {
            Some((k, v)) => if k == key {
                Some(v)
            } else {
                found
            },
            None => found,
        };
        if end < section.len() {
            lemma_value_in_valid(section.skip(end as int + 1), key, next);
        }
    }
}

proof fn lemma_section_valid(content: Seq<u8>)
    requires
        valid_utf8(content),
    ensures
        valid_or_none(section_spec(content)),
{
    lemma_markers_ascii();
    let header = "[Desktop Entry]".spec_bytes();
    let next = "\n[".spec_bytes();
    lemma_find_is_first(content, header, 0);
    match find_spec(content, header) {
        None => {},
        Some(at) => {
            let p = at + header.len();
            assert(content.subrange(at, p)[header.len() - 1] == content[p - 1]);
            lemma_cut_after_ascii(content, p - 1);
            lemma_slice_valid(content, p, content.len() as int);
            let rest = content.skip(p);
            assert(rest =~= content.subrange(p, content.len() as int));
            lemma_find_is_first(rest, next, 0);
            match find_spec(rest, next) {
                Some(end) => {
                    assert(rest.subrange(end, end + next.len())[0] == rest[end]);
                    lemma_cut_after_ascii(rest, end);
                    lemma_start_cuttable(rest);
                    lemma_slice_valid(rest, 0, end);
                    assert(rest.take(end) =~= rest.subrange(0, end));
                },
                None => {},
            }
        },
    }
}

proof fn lemma_cleaned_valid(command: Seq<u8>)
    requires
        valid_utf8(command),
    ensures
        valid_utf8(cleaned_spec(command)),
{
    lemma_markers_ascii();
    let a = remove_all_spec(command, " %F".spec_bytes());
    let b = remove_all_spec(a, " %f".spec_bytes());
    let c = remove_all_spec(b, " %U".spec_bytes());
    let d = remove_all_spec(c, " %u".spec_bytes());
    let e = remove_all_spec(d, "=%F".spec_bytes());
    let f = remove_all_spec(e, "=%f".spec_bytes());
    let g = remove_all_spec(f, "=%U".spec_bytes());
    lemma_remove_valid(command, " %F".spec_bytes());
    lemma_remove_valid(a, " %f".spec_bytes());
    lemma_remove_valid(b, " %U".spec_bytes());
    lemma_remove_valid(c, " %u".spec_bytes());
    lemma_remove_valid(d, "=%F".spec_bytes());
    lemma_remove_valid(e, "=%f".spec_bytes());
    lemma_remove_valid(f, "=%U".spec_bytes());
    lemma_remove_valid(g, "=%u".spec_bytes());
}

/// Every field of the entry that a text describes is itself a text,
/// provided the terminal is one.
pub proof fn lemma_entry_readable(content: Seq<u8>, terminal: Option<Seq<u8>>)
    requires
        valid_utf8(content),
        valid_or_none(terminal),
    ensures
        match entry_spec(content, terminal) {
            Some(fields) => readable(fields),
            None => true,
        },
{
    lemma_section_valid(content);
    match section_spec(content) {
        None => {},
        Some(section) => {
            lemma_value_in_valid(section, "Name".spec_bytes(), None);
            lemma_value_in_valid(section, "Exec".spec_bytes(), None);
            lemma_value_in_valid(section, "GenericName".spec_bytes(), None);
            lemma_value_in_valid(section, "Comment".spec_bytes(), None);
            lemma_value_in_valid(section, "Icon".spec_bytes(), None);
            let command = value_of(section, "Exec".spec_bytes());
            if command.is_some() {
                lemma_cleaned_valid(command.unwrap());
                if terminal.is_some() {
                    lemma_ascii_byte_valid(32u8);
                    lemma_concat_valid(terminal.unwrap(), seq![32u8]);
                    lemma_concat_valid(
                        terminal.unwrap() + seq![32u8],
                        cleaned_spec(command.unwrap()),
                    );
                }
            }
        },
    }
}

} // verus!
