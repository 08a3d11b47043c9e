//! Configuration as the daemon holds it: the launchable entries and the
//! flags that steer styling.

use vstd::prelude::*;
use vstd::string::*;

verus! {

/// Directories searched for desktop entries; a leading `~` stands for the
/// home directory.
pub const DESKTOP_PATHS: [&'static str; 3] = [
    "/usr/share/applications/",
    "/usr/local/share/applications/",
    "~/.local/share/applications/",
];

/// One launchable application.
#[derive(Debug, Clone, PartialEq, Eq)]
pub struct AppEntry {
    pub name: String,
    /// Generic name, such as "Web Browser".
    pub genc: Option<String>,
    /// One-line description.
    pub desc: Option<String>,
    pub icon: Option<String>,
    /// Command line handed to the shell.
    pub command: String,
}

/// What the daemon got from its configuration file and the desktop entries.
#[derive(Debug, Clone, PartialEq, Eq)]
pub struct ConfigLoad {
    /// Re-apply the style sheet each time a picker is toggled.
    pub css_reload: bool,
    /// Terminal emulator that runs entries which ask for one.
    pub terminal: Option<String>,
    pub apps: Vec<AppEntry>,
}

/// The text of an optional string.
pub open spec fn text_of(s: Option<String>) -> Option<Seq<char>> {
    match s {
        Some(s) => Some(s@),
        None => None,
    }
}

/// An entry as plain text.
pub struct EntryText {
    pub name: Seq<char>,
    pub genc: Option<Seq<char>>,
    pub desc: Option<Seq<char>>,
    pub icon: Option<Seq<char>>,
    pub command: Seq<char>,
}

/// A configuration as plain values.
pub struct ConfigText {
    pub css_reload: bool,
    pub terminal: Option<Seq<char>>,
    pub apps: Seq<EntryText>,
}

impl View for AppEntry {
    type V = EntryText;

    open spec fn view(&self) -> EntryText {
        EntryText {
            name: self.name@,
            genc: text_of(self.genc),
            desc: text_of(self.desc),
            icon: text_of(self.icon),
            command: self.command@,
        }
    }
}

/// The entries of a list as plain text, in order.
pub open spec fn entries_text(apps: Seq<AppEntry>) -> Seq<EntryText> {
    Seq::new(apps.len(), |i: int| apps[i]@)
}

impl View for ConfigLoad {
    type V = ConfigText;

    open spec fn view(&self) -> ConfigText {
        ConfigText {
            css_reload: self.css_reload,
            terminal: text_of(self.terminal),
            apps: entries_text(self.apps@),
        }
    }
}

/// A copy of an optional string.
pub fn copy_text(s: &Option<String>) -> (copy: Option<String>)
    ensures
        text_of(copy) == text_of(*s),
{
    match s {
        Some(s) => Some(s.clone()),
        None => None,
    }
}

impl AppEntry {
    /// A copy of the entry with the same text in every field.
    pub fn duplicate(&self) -> (copy: AppEntry)
        ensures
            copy@ == self@,
    {
        AppEntry {
            name: self.name.clone(),
            genc: copy_text(&self.genc),
            desc: copy_text(&self.desc),
            icon: copy_text(&self.icon),
            command: self.command.clone(),
        }
    }
}

/// A copy of a list of entries, in the same order.
pub fn copy_entries(apps: &Vec<AppEntry>) -> (copy: Vec<AppEntry>)
    ensures
        entries_text(copy@) == entries_text(apps@),
{
    let mut copy: Vec<AppEntry> = Vec::new();
    let mut i: usize = 0;
    while i < apps.len()
        invariant
            0 <= i <= apps.len(),
            copy@.len() == i,
            forall|k: int| 0 <= k < i ==> (#[trigger] copy@[k])@ == apps@[k]@,
        decreases apps.len() - i,
    {
        copy.push(apps[i].duplicate());
        i = i + 1;
    }
    assert(entries_text(copy@) =~= entries_text(apps@));
    copy
}

impl ConfigLoad {
    /// The configuration used when none can be read: no entries, no
    /// terminal, styling applied once.
    pub fn fallback() -> (config: ConfigLoad)
        ensures
            config@ == (ConfigText {
                css_reload: false,
                terminal: None,
                apps: Seq::<EntryText>::empty(),
            }),
    {
        let config = ConfigLoad { css_reload: false, terminal: None, apps: Vec::new() };
        assert(entries_text(config.apps@) =~= Seq::<EntryText>::empty());
        config
    }

    /// Appends discovered entries behind the configured ones.
    pub fn extend(&mut self, found: Vec<AppEntry>)
        ensures
            final(self)@.css_reload == old(self)@.css_reload,
            final(self)@.terminal == old(self)@.terminal,
            final(self)@.apps == old(self)@.apps + entries_text(found@),
    {
        let mut found = found;
        let ghost before = self.apps@;
        let ghost added = found@;
        self.apps.append(&mut found);
        assert(self.apps@ =~= before + added);
        assert(entries_text(self.apps@) =~= entries_text(before) + entries_text(added));
    }
}

/// Whether an entry before position `i` has the name of the entry at `i`.
pub open spec fn name_seen_before(apps: Seq<EntryText>, i: int) -> bool {
    exists|j: int| 0 <= j < i && (#[trigger] apps[j]).name == apps[i].name
}

/// The entries whose name no earlier entry has, in their order.
pub open spec fn unique_spec(apps: Seq<EntryText>) -> Seq<EntryText>
    decreases apps.len(),
{
    if apps.len() == 0 {
        Seq::<EntryText>::empty()
    } else if name_seen_before(apps, apps.len() - 1) {
        unique_spec(apps.drop_last())
    } else {
        unique_spec(apps.drop_last()).push(apps.last())
    }
}

/// Every name among `apps` is the name of an entry that was kept, every
/// kept entry is one of `apps`, and no two kept entries share a name.
pub proof fn lemma_unique_names(apps: Seq<EntryText>)
    ensures
        forall|i: int|
            0 <= i < apps.len() ==> exists|k: int|
                0 <= k < unique_spec(apps).len() && (#[trigger] unique_spec(apps)[k]).name
                    == (#[trigger] apps[i]).name,
        forall|k: int|
            0 <= k < unique_spec(apps).len() ==> apps.contains(#[trigger] unique_spec(apps)[k]),
        forall|k: int, l: int|
            0 <= k < l < unique_spec(apps).len() ==> (#[trigger] unique_spec(apps)[k]).name != (
            #[trigger] unique_spec(apps)[l]).name,
        unique_spec(apps).len() <= apps.len(),
    decreases apps.len(),
{
    if apps.len() > 0 {
        let init = apps.drop_last();
        let last = apps.last();
        let n = apps.len() - 1;
        lemma_unique_names(init);
        let u0 = unique_spec(init);
        let u = unique_spec(apps);
        assert forall|i: int| 0 <= i < apps.len() implies exists|k: int|
            0 <= k < u.len() && (#[trigger] u[k]).name == (#[trigger] apps[i]).name by {
            if i < n {
                assert(init[i] == apps[i]);
                let k = choose|k: int| 0 <= k < u0.len() && (#[trigger] u0[k]).name == init[i].name;
                assert(u[k] == u0[k]);
            } else if name_seen_before(apps, n) {
                let j = choose|j: int| 0 <= j < n && (#[trigger] apps[j]).name == apps[n].name;
                assert(init[j] == apps[j]);
                let k = choose|k: int| 0 <= k < u0.len() && (#[trigger] u0[k]).name == init[j].name;
                assert(u[k] == u0[k]);
            } else {
                assert(u[u.len() - 1] == last);
            }
        }
        assert forall|k: int| 0 <= k < u.len() implies apps.contains(#[trigger] u[k]) by {
            if k < u0.len() {
                assert(u[k] == u0[k]);
                assert(init.contains(u0[k]));
                let j = choose|j: int| 0 <= j < init.len() && init[j] == u0[k];
                assert(apps[j] == u0[k]);
            } else {
                assert(u[k] == apps[n]);
            }
        }
        assert forall|k: int, l: int| 0 <= k < l < u.len() implies (#[trigger] u[k]).name != (
        #[trigger] u[l]).name by {
            if l < u0.len() {
                assert(u[k] == u0[k] && u[l] == u0[l]);
            } else {
                assert(!name_seen_before(apps, n));
                assert(u[k] == u0[k]);
                assert(init.contains(u0[k]));
                let j = choose|j: int| 0 <= j < init.len() && init[j] == u0[k];
                assert(apps[j] == u0[k]);
            }
        }
    }
}

/// Keeps, of the entries that share a name, only the first.
pub fn unique_apps(apps: &Vec<AppEntry>) -> (unique: Vec<AppEntry>)
    ensures
        entries_text(unique@) == unique_spec(entries_text(apps@)),
{
    let mut unique: Vec<AppEntry> = Vec::new();
    let mut i: usize = 0;
    let ghost all = entries_text(apps@);
    assert(all.take(0) =~= Seq::<EntryText>::empty());
    assert(entries_text(unique@) =~= Seq::<EntryText>::empty());
    while i < apps.len()
        invariant
            0 <= i <= apps@.len(),
            all == entries_text(apps@),
            entries_text(unique@) == unique_spec(all.take(i as int)),
        decreases apps.len() - i,
    {
        let ghost kept = entries_text(unique@);
        let ghost upto = all.take(i as int);
        proof {
            lemma_unique_names(upto);
        }
        let mut seen = false;
        let mut k: usize = 0;
        while k < unique.len() && !seen
            invariant
                0 <= k <= unique@.len(),
                i < apps@.len(),
                kept == entries_text(unique@),
                all == entries_text(apps@),
                !seen ==> forall|l: int| 0 <= l < k ==> (#[trigger] kept[l]).name != all[i as int].name,
                seen ==> exists|l: int| 0 <= l < kept.len() && (#[trigger] kept[l]).name == all[i as int].name,
            decreases unique.len() - k,
        {
            if unique[k].name == apps[i].name {
                seen = true;
                assert(kept[k as int].name == all[i as int].name);
            } else {
                assert(kept[k as int].name != all[i as int].name);
            }
            k = k + 1;
        }
        let ghost next = all.take(i + 1);
        proof {
            assert(next.drop_last() =~= upto);
            assert(next.last() == all[i as int]);
            if seen {
                let l = choose|l: int| 0 <= l < kept.len() && (#[trigger] kept[l]).name == all[i as int].name;
                assert(upto.contains(kept[l]));
                let j = choose|j: int| 0 <= j < upto.len() && upto[j] == kept[l];
                assert(next[j] == upto[j]);
                assert(name_seen_before(next, i as int));
            } else {
                if name_seen_before(next, i as int) {
                    let j = choose|j: int| 0 <= j < i && (#[trigger] next[j]).name == next[i as int].name;
                    assert(upto[j] == next[j]);
                    let l = choose|l: int|
                        0 <= l < kept.len() && (#[trigger] kept[l]).name == upto[j].name;
                    assert(false);
                }
            }
        }
        if !seen {
            unique.push(apps[i].duplicate());
            assert(entries_text(unique@) =~= kept.push(all[i as int]));
        }
        i = i + 1;
    }
    assert(all.take(i as int) =~= all);
    unique
}

/// Whether `suffix` ends `bytes`.
pub open spec fn ends_with_spec(bytes: Seq<u8>, suffix: Seq<u8>) -> bool {
    bytes.len() >= suffix.len() && bytes.skip(bytes.len() - suffix.len()) == suffix
}

/// The bytes of `.desktop`, the extension of a desktop entry.
pub open spec fn desktop_suffix() -> Seq<u8> {
    seq![46u8, 100u8, 101u8, 115u8, 107u8, 116u8, 111u8, 112u8]
}

/// Whether a file name has the extension of a desktop entry.
pub fn is_desktop_file(filename: &str) -> (found: bool)
    ensures
        found == ends_with_spec(filename.spec_bytes(), desktop_suffix()),
{
    let name = filename.as_bytes();
    let suffix: [u8; 8] = [46, 100, 101, 115, 107, 116, 111, 112];
    assert(suffix@ =~= desktop_suffix());
    if name.len() < 8 {
        return false;
    }
    let start: usize = name.len() - 8;
    let mut k: usize = 0;
    while k < 8
        invariant
            0 <= k <= 8,
            start + 8 == name@.len(),
            name@.len() <= usize::MAX,
            name@ == filename.spec_bytes(),
            suffix@ == desktop_suffix(),
            forall|l: int| 0 <= l < k ==> name@[start + l] == #[trigger] suffix@[l],
        decreases 8 - k,
    {
        if name[start + k] != suffix[k] {
            assert(name@.skip(start as int)[k as int] != desktop_suffix()[k as int]);
            return false;
        }
        k = k + 1;
    }
    assert(name@.skip(start as int) =~= desktop_suffix());
    true
}

} // verus!
