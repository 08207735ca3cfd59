//! Services and autostart entries: which services are watched and how a probe
//! of one is read, how a service is controlled, and how the files of the
//! autostart directory are read as entries that are switched on or off.

use crate::command::{Invocation, InvocationView};
use crate::text::{chars_of, ends_with, has_suffix, same_text, string_of, trim, trimmed};
use vstd::prelude::*;
use vstd::string::StringExecFns;

verus! {

/// The names of the services that are watched.
pub open spec fn service_names() -> Seq<Seq<char>> {
    seq!["sshd"@, "NetworkManager"@, "ufw"@, "docker"@, "bluetooth"@, "cronie"@]
}

/// The names of the services that are watched.
pub fn watched_services() -> (names: Vec<String>)
    ensures
        names.deep_view() == service_names(),
{
    let mut names: Vec<String> = Vec::new();
    names.push("sshd".to_owned());
    names.push("NetworkManager".to_owned());
    names.push("ufw".to_owned());
    names.push("docker".to_owned());
    names.push("bluetooth".to_owned());
    names.push("cronie".to_owned());
    assert(names.deep_view() =~= service_names());
    names
}

/// The run that asks the service manager for the state of a service.
pub fn probe_command(name: &str) -> (run: Invocation)
    ensures
        run@ == (InvocationView { program: "systemctl"@, args: seq!["is-active"@, name@] }),
{
    let mut args: Vec<String> = Vec::new();
    args.push("is-active".to_owned());
    args.push(name.to_owned());
    assert(args.deep_view() =~= seq!["is-active"@, name@]);
    Invocation { program: "systemctl".to_owned(), args }
}

/// The state of a watched service.
#[derive(Clone, Debug, PartialEq, Eq)]
pub struct ServiceStatus {
    pub name: String,
    /// The state as the service manager words it, or `unknown`.
    pub status: String,
    /// The state is `active`.
    pub active: bool,
}

pub struct ServiceStatusView {
    pub name: Seq<char>,
    pub status: Seq<char>,
    pub active: bool,
}

impl View for ServiceStatus {
    type V = ServiceStatusView;

    open spec fn view(&self) -> ServiceStatusView {
        ServiceStatusView { name: self.name@, status: self.status@, active: self.active }
    }
}

impl DeepView for ServiceStatus {
    type V = ServiceStatusView;

    open spec fn deep_view(&self) -> ServiceStatusView {
        self@
    }
}

/// The state that a probe gives: what the service manager printed, without
/// the white space around it, or `unknown` where the probe failed.
pub open spec fn status_text(probe: Option<Seq<char>>) -> Seq<char> {
    match probe {
        Some(printed) => trimmed(printed),
        None => "unknown"@,
    }
}

/// The status of the service `name` that a probe gives. The service is active
/// where its state is exactly `active`.
pub open spec fn status_of(name: Seq<char>, probe: Option<Seq<char>>) -> ServiceStatusView {
    ServiceStatusView { name, status: status_text(probe), active: status_text(probe) == "active"@ }
}

/// Reads the probe of one service: see [`status_of`]. The probe is missing
/// where it failed.
pub fn classify_service(name: &str, probe: Option<&str>) -> (status: ServiceStatus)
    ensures
        status@ == status_of(name@, probe.deep_view()),
{
    let text = match probe {
        Some(printed) => trim(printed),
        None => "unknown".to_owned(),
    };
    let active = same_text(text.as_str(), "active");
    ServiceStatus { name: name.to_owned(), status: text, active }
}

/// A failed probe never shows a service as active.
pub proof fn lemma_failed_probe_is_inactive(name: Seq<char>)
    ensures
        status_of(name, None).status == "unknown"@,
        !status_of(name, None).active,
{
    reveal_strlit("unknown");
    reveal_strlit("active");
    assert("unknown"@.len() != "active"@.len());
}

/// The probe of the service at position `i`: a probe that is missing counts as
/// failed.
pub open spec fn probe_at(probes: Seq<Option<Seq<char>>>, i: int) -> Option<Seq<char>> {
    if 0 <= i < probes.len() {
        probes[i]
    } else {
        None
    }
}

/// The statuses of the watched services, given the probe of each in the order
/// of [`service_names`].
pub open spec fn statuses_of(probes: Seq<Option<Seq<char>>>) -> Seq<ServiceStatusView> {
    Seq::new(service_names().len(), |i: int| status_of(service_names()[i], probe_at(probes, i)))
}

/// The statuses of the watched services, one for each name of
/// [`service_names`] and in that order. `probes` holds the probe of each
/// service in the same order; a probe that failed is missing, and leaves that
/// service alone as `unknown` and not active.
pub fn list_services(probes: &Vec<Option<String>>) -> (statuses: Vec<ServiceStatus>)
    ensures
        statuses.deep_view() == statuses_of(probes.deep_view()),
{
    let names = watched_services();
    let mut statuses: Vec<ServiceStatus> = Vec::new();
    let mut i: usize = 0;
    while i < names.len()
        invariant
            i <= names.len(),
            names.deep_view() == service_names(),
            statuses.len() == i,
            forall|j: int|
                0 <= j < i ==> statuses.deep_view()[j] == status_of(
                    service_names()[j],
                    probe_at(probes.deep_view(), j),
                ),
        decreases names.len() - i,
    {
        assert(names.deep_view()[i as int] == names[i as int]@);
        let status = if i < probes.len() {
            assert(probes.deep_view()[i as int] == probes[i as int].deep_view());
            match &probes[i] {
                Some(printed) => classify_service(names[i].as_str(), Some(printed.as_str())),
                None => classify_service(names[i].as_str(), None),
            }
        } else {
            classify_service(names[i].as_str(), None)
        };
        let ghost before = statuses.deep_view();
        statuses.push(status);
        assert(statuses.deep_view() =~= before.push(status@));
        i += 1;
    }
    assert(statuses.deep_view() =~= statuses_of(probes.deep_view()));
    statuses
}

/// The word names an action that the service manager is asked for.
pub open spec fn is_service_action(word: Seq<char>) -> bool {
    ||| word == "start"@
    ||| word == "stop"@
    ||| word == "restart"@
    ||| word == "enable"@
    ||| word == "disable"@
}

/// The run that asks the service manager for an action on a service, for the
/// actions of [`is_service_action`]; none for any other word.
pub open spec fn control_command_of(name: Seq<char>, action: Seq<char>) -> Option<InvocationView> {
    if is_service_action(action) {
        Some(InvocationView { program: "systemctl"@, args: seq![action, name] })
    } else {
        None
    }
}

/// The run that carries out an action on a service: see
/// [`control_command_of`]. Only whether the run succeeds is of interest, not
/// what it prints.
pub fn control_command(name: &str, action: &str) -> (run: Option<Invocation>)
    ensures
        run.deep_view() == control_command_of(name@, action@),
{
    if same_text(action, "start") || same_text(action, "stop") || same_text(action, "restart")
        || same_text(action, "enable") || same_text(action, "disable") {
        let mut args: Vec<String> = Vec::new();
        args.push(action.to_owned());
        args.push(name.to_owned());
        assert(args.deep_view() =~= seq![action@, name@]);
        Some(Invocation { program: "systemctl".to_owned(), args })
    } else {
        None
    }
}

/// An entry of the autostart directory. Its path tells whether it is switched
/// on, and changes when it is switched: after that the entry is to be listed
/// anew.
#[derive(Clone, Debug, PartialEq, Eq)]
pub struct StartupEntry {
    /// The file's name without the suffix that marks it.
    pub name: String,
    pub path: String,
    pub enabled: bool,
}

pub struct StartupEntryView {
    pub name: Seq<char>,
    pub path: Seq<char>,
    pub enabled: bool,
}

impl View for StartupEntry {
    type V = StartupEntryView;

    open spec fn view(&self) -> StartupEntryView {
        StartupEntryView { name: self.name@, path: self.path@, enabled: self.enabled }
    }
}

impl DeepView for StartupEntry {
    type V = StartupEntryView;

    open spec fn deep_view(&self) -> StartupEntryView {
        self@
    }
}

/// The suffix of an entry that is switched on.
pub open spec fn enabled_suffix() -> Seq<char> {
    ".desktop"@
}

/// What is added to the name of an entry to switch it off.
pub open spec fn backup_suffix() -> Seq<char> {
    ".bak"@
}

/// The suffix of an entry that is switched off.
pub open spec fn disabled_suffix() -> Seq<char> {
    ".desktop.bak"@
}

/// The autostart directory of the user whose home directory is `home`.
pub fn autostart_dir(home: &str) -> (dir: String)
    ensures
        dir@ == home@ + "/.config/autostart"@,
{
    let mut dir = home.to_owned();
    dir.append("/.config/autostart");
    dir
}

/// The path of the file `file` in the directory `dir`.
pub open spec fn path_in(dir: Seq<char>, file: Seq<char>) -> Seq<char> {
    dir + "/"@ + file
}

/// The entry that a file of the autostart directory stands for: one that is
/// switched on where the file's name ends in `.desktop`, one that is switched
/// off where it ends in `.desktop.bak`, none otherwise.
pub open spec fn entry_of(dir: Seq<char>, file: Seq<char>) -> Option<StartupEntryView> {
    if has_suffix(file, enabled_suffix()) {
        Some(
            StartupEntryView {
                name: file.take(file.len() - enabled_suffix().len()),
                path: path_in(dir, file),
                enabled: true,
            },
        )
    } else if has_suffix(file, disabled_suffix()) {
        Some(
            StartupEntryView {
                name: file.take(file.len() - disabled_suffix().len()),
                path: path_in(dir, file),
                enabled: false,
            },
        )
    } else {
        None
    }
}

/// Reads a file of the autostart directory as an entry: see [`entry_of`].
pub fn classify_entry(dir: &str, file: &str) -> (entry: Option<StartupEntry>)
    ensures
        entry.deep_view() == entry_of(dir@, file@),
{
    let name = chars_of(file);
    let on = chars_of(".desktop");
    let off = chars_of(".desktop.bak");
    let enabled = ends_with(&name, &on);
    if !enabled && !ends_with(&name, &off) {
        return None;
    }
    let cut: usize = if enabled {
        name.len() - on.len()
    } else {
        name.len() - off.len()
    };
    let mut path = dir.to_owned();
    path.append("/");
    path.append(file);
    Some(StartupEntry { name: string_of(&name, 0, cut), path, enabled })
}

/// The entries that the files of the autostart directory stand for, in the
/// order of the files. Files that stand for no entry are left out.
pub open spec fn entries_of(dir: Seq<char>, files: Seq<Seq<char>>) -> Seq<StartupEntryView>
    decreases files.len(),
{
    if files.len() == 0 {
        Seq::empty()
    } else {
        let earlier = entries_of(dir, files.drop_last());
        match entry_of(dir, files.last()) {
            Some(entry) => earlier.push(entry),
            None => earlier,
        }
    }
}

/// Lists the entries of the autostart directory `dir`, given the names of the
/// files in it: see [`entries_of`].
pub fn list_startup_entries(dir: &str, files: &Vec<String>) -> (entries: Vec<StartupEntry>)
    ensures
        entries.deep_view() == entries_of(dir@, files.deep_view()),
{
    let ghost all = files.deep_view();
    let mut entries: Vec<StartupEntry> = Vec::new();
    let mut i: usize = 0;
    assert(all.take(0) =~= Seq::empty());
    assert(entries.deep_view() =~= Seq::empty());
    while i < files.len()
        invariant
            i <= files.len(),
            all == files.deep_view(),
            entries.deep_view() == entries_of(dir@, all.take(i as int)),
        decreases files.len() - i,
    {
        proof {
            assert(all.take(i + 1).drop_last() =~= all.take(i as int));
            assert(all.take(i + 1).last() == files[i as int]@);
        }
        match classify_entry(dir, files[i].as_str()) {
            Some(entry) => {
                let ghost before = entries.deep_view();
                entries.push(entry);
                assert(entries.deep_view() =~= before.push(entry@));
            },
            None => {},
        }
        i += 1;
    }
    assert(all.take(files.len() as int) =~= all);
    entries
}

/// The path that an entry has after it is switched. To switch an entry off,
/// `.bak` is added to a path that ends in `.desktop`; to switch it on, the
/// `.bak` is taken off a path that ends in `.desktop.bak`. A path that is
/// already as asked, or is no entry's path, stays as it is.
pub open spec fn toggled_path(path: Seq<char>, enable: bool) -> Seq<char> {
    if enable {
        if has_suffix(path, disabled_suffix()) {
            path.take(path.len() - backup_suffix().len())
        } else {
            path
        }
    } else {
        if has_suffix(path, enabled_suffix()) {
            path + backup_suffix()
        } else {
            path
        }
    }
}

/// The path to which the file at `path` is renamed to switch the entry on or
/// off: see [`toggled_path`].
pub fn toggle_target(path: &str, enable: bool) -> (target: String)
    ensures
        target@ == toggled_path(path@, enable),
{
    let chars = chars_of(path);
    if enable {
        let off = chars_of(".desktop.bak");
        let backup = chars_of(".bak");
        if ends_with(&chars, &off) {
            proof {
                reveal_strlit(".desktop.bak");
                reveal_strlit(".bak");
            }
            string_of(&chars, 0, chars.len() - backup.len())
        } else {
            path.to_owned()
        }
    } else {
        let on = chars_of(".desktop");
        if ends_with(&chars, &on) {
            let mut target = path.to_owned();
            target.append(".bak");
            target
        } else {
            path.to_owned()
        }
    }
}

proof fn lemma_suffix_in_dir(dir: Seq<char>, file: Seq<char>, suffix: Seq<char>)
    requires
        forall|i: int| 0 <= i < suffix.len() ==> suffix[i] != '/',
    ensures
        has_suffix(path_in(dir, file), suffix) == has_suffix(file, suffix),
{
    reveal_strlit("/");
    let path = path_in(dir, file);
    let at = path.len() - suffix.len();
    assert(path.len() == dir.len() + 1 + file.len());
    if has_suffix(file, suffix) {
        assert(path.subrange(at, path.len() as int) =~= file.subrange(
            file.len() - suffix.len(),
            file.len() as int,
        ));
    } else if has_suffix(path, suffix) {
        if suffix.len() <= file.len() {
            assert(path.subrange(at, path.len() as int) =~= file.subrange(
                file.len() - suffix.len(),
                file.len() as int,
            ));
        } else {
            let slash = dir.len() - at;
            assert(path.subrange(at, path.len() as int)[slash] == path[dir.len() as int]);
            assert(path[dir.len() as int] == '/');
            assert(suffix[slash] == '/');
        }
    }
}

proof fn lemma_suffixes_hold_no_slash()
    ensures
        forall|i: int| 0 <= i < enabled_suffix().len() ==> enabled_suffix()[i] != '/',
        forall|i: int| 0 <= i < disabled_suffix().len() ==> disabled_suffix()[i] != '/',
{
    reveal_strlit(".desktop");
    reveal_strlit(".desktop.bak");
}

/// To switch an entry comes to the same for its path as for its file name:
/// the directory plays no part.
pub proof fn lemma_toggle_in_dir(dir: Seq<char>, file: Seq<char>, enable: bool)
    ensures
        toggled_path(path_in(dir, file), enable) == path_in(dir, toggled_path(file, enable)),
{
    reveal_strlit(".desktop");
    reveal_strlit(".desktop.bak");
    reveal_strlit(".bak");
    lemma_suffixes_hold_no_slash();
    lemma_suffix_in_dir(dir, file, enabled_suffix());
    lemma_suffix_in_dir(dir, file, disabled_suffix());
    let path = path_in(dir, file);
    if enable {
        if has_suffix(file, disabled_suffix()) {
            assert(path.take(path.len() - 4) =~= path_in(dir, file.take(file.len() - 4)));
        }
    } else {
        if has_suffix(file, enabled_suffix()) {
            assert(path + backup_suffix() =~= path_in(dir, file + backup_suffix()));
        }
    }
}

/// An entry that is switched off is listed afterwards as switched off, under
/// its name and at the path it was renamed to; switched on again, it is back
/// at its first path.
pub proof fn lemma_switch_off(dir: Seq<char>, file: Seq<char>)
    requires
        has_suffix(file, enabled_suffix()),
    ensures
        entry_of(dir, file) is Some,
        entry_of(dir, file)->0.enabled,
        toggled_path(path_in(dir, file), false) == path_in(dir, file) + backup_suffix(),
        entry_of(dir, toggled_path(file, false)) == Some(
            StartupEntryView {
                name: entry_of(dir, file)->0.name,
                path: toggled_path(path_in(dir, file), false),
                enabled: false,
            },
        ),
        toggled_path(toggled_path(path_in(dir, file), false), true) == path_in(dir, file),
{
    reveal_strlit(".desktop");
    reveal_strlit(".desktop.bak");
    reveal_strlit(".bak");
    lemma_toggle_in_dir(dir, file, false);
    let off = file + backup_suffix();
    assert(toggled_path(file, false) == off);
    let tail = file.subrange(file.len() - 8, file.len() as int);
    assert(tail =~= enabled_suffix());
    assert(off.subrange(off.len() - 12, off.len() as int) =~= tail + backup_suffix());
    assert(tail + backup_suffix() =~= disabled_suffix());
    assert(has_suffix(off, disabled_suffix()));
    assert(!has_suffix(off, enabled_suffix())) by {
        if has_suffix(off, enabled_suffix()) {
            assert(off.subrange(off.len() - 8, off.len() as int)[7] == off[off.len() - 1]);
            assert(off[off.len() - 1] == backup_suffix()[3]);
        }
    }
    assert(off.take(off.len() - 12) =~= file.take(file.len() - 8));
    lemma_toggle_in_dir(dir, off, true);
    assert(off.take(off.len() - 4) =~= file);
    lemma_suffixes_hold_no_slash();
    lemma_suffix_in_dir(dir, file, enabled_suffix());
}

/// An entry that is switched on is listed afterwards as switched on, under its
/// name and at the path it was renamed to; switched off again, it is back at
/// its first path.
pub proof fn lemma_switch_on(dir: Seq<char>, file: Seq<char>)
    requires
        has_suffix(file, disabled_suffix()),
    ensures
        entry_of(dir, file) is Some,
        !entry_of(dir, file)->0.enabled,
        toggled_path(path_in(dir, file), true) + backup_suffix() == path_in(dir, file),
        entry_of(dir, toggled_path(file, true)) == Some(
            StartupEntryView {
                name: entry_of(dir, file)->0.name,
                path: toggled_path(path_in(dir, file), true),
                enabled: true,
            },
        ),
        toggled_path(toggled_path(path_in(dir, file), true), false) == path_in(dir, file),
{
    reveal_strlit(".desktop");
    reveal_strlit(".desktop.bak");
    reveal_strlit(".bak");
    lemma_toggle_in_dir(dir, file, true);
    let on = file.take(file.len() - 4);
    assert(toggled_path(file, true) == on);
    let tail = file.subrange(file.len() - 12, file.len() as int);
    assert(tail =~= disabled_suffix());
    assert(!has_suffix(file, enabled_suffix())) by {
        if has_suffix(file, enabled_suffix()) {
            assert(file.subrange(file.len() - 8, file.len() as int)[7] == file[file.len() - 1]);
            assert(tail[11] == file[file.len() - 1]);
        }
    }
    assert(on.subrange(on.len() - 8, on.len() as int) =~= tail.take(8));
    assert(tail.take(8) =~= enabled_suffix());
    assert(has_suffix(on, enabled_suffix()));
    assert(on.take(on.len() - 8) =~= file.take(file.len() - 12));
    assert(on + backup_suffix() =~= file) by {
        assert(file.subrange(file.len() - 4, file.len() as int) =~= tail.skip(8));
        assert(tail.skip(8) =~= backup_suffix());
    }
    lemma_toggle_in_dir(dir, on, false);
    assert(path_in(dir, on) + backup_suffix() =~= path_in(dir, on + backup_suffix()));
}

} // verus!
