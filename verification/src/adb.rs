//! What the library makes of `adb`: the arguments of each command it runs,
//! and the reading of each command's output.
use vstd::prelude::*;

use crate::text::{
    after_first_word, contains, contains_str, contains_text, first_two_words, first_word,
    lines, lower, lowercase, split_lines, starts_with, strip_prefix, trim,
    trim_str, views,
};

verus! {

/// What a finished `adb` command left: whether it exited successfully, and its
/// standard output and standard error decoded as UTF-8 (invalid sequences
/// replaced, as `String::from_utf8_lossy` does).
pub struct CommandOutput {
    pub success: bool,
    pub stdout: String,
    pub stderr: String,
}

/// The `adb` commands that the tool runs.
#[derive(Clone, Copy, Debug, PartialEq, Eq, Structural)]
pub enum AdbCommand {
    Version,
    Devices,
    GetProp,
    ListPackages,
    Uninstall,
}

/// Why an `adb` step failed.
#[derive(Debug)]
pub enum AdbError {
    /// The command could not be started.
    CouldNotRun { command: AdbCommand },
    /// `adb version` exited with a failure; its standard error.
    VersionFailed { stderr: String },
    /// `adb devices -l` exited with a failure.
    DevicesFailed,
    /// No attached device is in state `device`.
    NoDevice,
    /// `pm list packages` exited with a failure; its standard error.
    ListPackagesFailed { stderr: String },
    /// `pm uninstall` failed for `package`; what the command printed.
    UninstallFailed { package: String, output: String },
}

/// The message that a failure to start `command` reports.
pub open spec fn could_not_run_message(command: AdbCommand) -> Seq<char> {
    match command {
        AdbCommand::Version => "failed to run `adb` \u{2014} is Android Platform Tools installed and in PATH?"@,
        AdbCommand::Devices => "adb devices failed"@,
        AdbCommand::GetProp => "adb shell getprop failed"@,
        AdbCommand::ListPackages => "pm list packages failed"@,
        AdbCommand::Uninstall => "pm uninstall failed"@,
    }
}

/// The text of an error.
pub open spec fn message_spec(e: AdbError) -> Seq<char> {
    match e {
        AdbError::CouldNotRun { command } => could_not_run_message(command),
        AdbError::VersionFailed { stderr } => "adb version failed: "@ + stderr@,
        AdbError::DevicesFailed => "adb devices failed"@,
        AdbError::NoDevice => "No device in `adb devices` state `device`. Enable USB debugging and authorize this computer."@,
        AdbError::ListPackagesFailed { stderr } => "pm list packages failed: "@ + stderr@,
        AdbError::UninstallFailed { package, output } => package@ + ": "@ + output@,
    }
}

fn could_not_run_text(command: AdbCommand) -> (res: &'static str)
    ensures
        res@ == could_not_run_message(command),
{
    match command {
        AdbCommand::Version => "failed to run `adb` \u{2014} is Android Platform Tools installed and in PATH?",
        AdbCommand::Devices => "adb devices failed",
        AdbCommand::GetProp => "adb shell getprop failed",
        AdbCommand::ListPackages => "pm list packages failed",
        AdbCommand::Uninstall => "pm uninstall failed",
    }
}

impl AdbError {
    /// The text of this error, as the tool shows it.
    pub fn message(&self) -> (res: String)
        ensures
            res@ == message_spec(*self),
    {
        match self {
            AdbError::CouldNotRun { command } => String::from_str(could_not_run_text(*command)),
            AdbError::VersionFailed { stderr } => {
                let mut s = String::from_str("adb version failed: ");
                s.append(stderr.as_str());
                s
            },
            AdbError::DevicesFailed => String::from_str("adb devices failed"),
            AdbError::NoDevice => String::from_str(
                "No device in `adb devices` state `device`. Enable USB debugging and authorize this computer.",
            ),
            AdbError::ListPackagesFailed { stderr } => {
                let mut s = String::from_str("pm list packages failed: ");
                s.append(stderr.as_str());
                s
            },
            AdbError::UninstallFailed { package, output } => {
                let mut s = package.clone();
                s.append(": ");
                s.append(output.as_str());
                s
            },
        }
    }
}

fn push_text(v: &mut Vec<String>, s: &str)
    ensures
        views(final(v)@) == views(old(v)@).push(s@),
{
    let ghost before = v@;
    v.push(String::from_str(s));
    assert(views(v@) =~= views(before).push(s@));
}

/// The arguments that select the device, when one is chosen: `-s <serial>`.
pub open spec fn base_args(serial: Option<Seq<char>>) -> Seq<Seq<char>> {
    match serial {
        Some(s) => seq!["-s"@, s],
        None => Seq::empty(),
    }
}

/// The leading arguments of every command sent to a device.
pub fn adb_base(serial: Option<&str>) -> (res: Vec<String>)
    ensures
        views(res@) == base_args(
            match serial {
                Some(s) => Some(s@),
                None => None,
            },
        ),
{
    let mut v: Vec<String> = Vec::new();
    assert(views(v@) =~= Seq::<Seq<char>>::empty());
    if let Some(s) = serial {
        push_text(&mut v, "-s");
        push_text(&mut v, s);
        assert(views(v@) =~= seq!["-s"@, s@]);
    }
    v
}

/// The view of an optional text argument.
pub open spec fn opt_view(s: Option<&str>) -> Option<Seq<char>> {
    match s {
        Some(t) => Some(t@),
        None => None,
    }
}

/// The arguments of `adb version`.
pub fn version_args() -> (res: Vec<String>)
    ensures
        views(res@) == seq!["version"@],
{
    let mut v: Vec<String> = Vec::new();
    push_text(&mut v, "version");
    assert(views(v@) =~= seq!["version"@]);
    v
}

/// The arguments of `adb devices -l`.
pub fn devices_args() -> (res: Vec<String>)
    ensures
        views(res@) == seq!["devices"@, "-l"@],
{
    let mut v: Vec<String> = Vec::new();
    push_text(&mut v, "devices");
    push_text(&mut v, "-l");
    assert(views(v@) =~= seq!["devices"@, "-l"@]);
    v
}

/// The arguments of `adb [-s <serial>] shell getprop <key>`.
pub fn get_prop_args(serial: Option<&str>, key: &str) -> (res: Vec<String>)
    ensures
        views(res@) == base_args(opt_view(serial)) + seq!["shell"@, "getprop"@, key@],
{
    let mut v = adb_base(serial);
    let ghost b = views(v@);
    push_text(&mut v, "shell");
    push_text(&mut v, "getprop");
    push_text(&mut v, key);
    assert(views(v@) =~= b + seq!["shell"@, "getprop"@, key@]);
    v
}

/// The arguments of `adb [-s <serial>] shell pm list packages`.
pub fn list_packages_args(serial: Option<&str>) -> (res: Vec<String>)
    ensures
        views(res@) == base_args(opt_view(serial)) + seq![
            "shell"@,
            "pm"@,
            "list"@,
            "packages"@,
        ],
{
    let mut v = adb_base(serial);
    let ghost b = views(v@);
    push_text(&mut v, "shell");
    push_text(&mut v, "pm");
    push_text(&mut v, "list");
    push_text(&mut v, "packages");
    assert(views(v@) =~= b + seq!["shell"@, "pm"@, "list"@, "packages"@]);
    v
}

/// The arguments of `adb [-s <serial>] shell pm uninstall --user 0 <package>`.
pub fn uninstall_args(serial: Option<&str>, package: &str) -> (res: Vec<String>)
    ensures
        views(res@) == base_args(opt_view(serial)) + seq![
            "shell"@,
            "pm"@,
            "uninstall"@,
            "--user"@,
            "0"@,
            package@,
        ],
{
    let mut v = adb_base(serial);
    let ghost b = views(v@);
    push_text(&mut v, "shell");
    push_text(&mut v, "pm");
    push_text(&mut v, "uninstall");
    push_text(&mut v, "--user");
    push_text(&mut v, "0");
    push_text(&mut v, package);
    assert(views(v@) =~= b + seq!["shell"@, "pm"@, "uninstall"@, "--user"@, "0"@, package@]);
    v
}

/// The reply of `adb version`: its trimmed output when it succeeded.
pub fn adb_version(out: &CommandOutput) -> (res: Result<String, AdbError>)
    ensures
        out.success ==> (res matches Ok(v) && v@ == trim(out.stdout@)),
        !out.success ==> (res matches Err(AdbError::VersionFailed { stderr }) && stderr@
            == out.stderr@),
{
    if !out.success {
        return Err(AdbError::VersionFailed { stderr: out.stderr.clone() });
    }
    Ok(trim_str(out.stdout.as_str()))
}

/// The value printed by `getprop`, trimmed.
pub fn get_prop(out: &CommandOutput) -> (res: String)
    ensures
        res@ == trim(out.stdout@),
{
    trim_str(out.stdout.as_str())
}


/// The state column of a line of `adb devices -l`: its second word.
pub open spec fn device_state(l: Seq<char>) -> Seq<char> {
    first_word(after_first_word(l))
}

/// The serials (first words) of the lines whose state is `device`.
pub open spec fn ready_devices(ls: Seq<Seq<char>>) -> Seq<Seq<char>>
    decreases ls.len(),
{
    if ls.len() == 0 {
        Seq::empty()
    } else if device_state(ls.last()) == "device"@ {
        ready_devices(ls.drop_last()).push(first_word(ls.last()))
    } else {
        ready_devices(ls.drop_last())
    }
}

/// The lines of `adb devices -l` output after its header line.
pub open spec fn device_lines(text: Seq<char>) -> Seq<Seq<char>> {
    if lines(text).len() == 0 {
        lines(text)
    } else {
        lines(text).drop_first()
    }
}

/// The serials of the devices that `adb devices -l` lists in state `device`.
pub open spec fn devices_in(text: Seq<char>) -> Seq<Seq<char>> {
    ready_devices(device_lines(text))
}

/// The serials of the devices in state `device` that an `adb devices -l`
/// listing names, in order; blank lines name none.
pub fn parse_devices(listing: &str) -> (res: Vec<String>)
    ensures
        views(res@) == devices_in(listing@),
{
    let ls = split_lines(listing);
    let ghost all = views(ls@);
    let mut out: Vec<String> = Vec::new();
    let n = ls.len();
    if n == 0 {
        assert(views(out@) =~= Seq::<Seq<char>>::empty());
        return out;
    }
    let ghost dl = all.drop_first();
    let device = String::from_str("device");
    let mut i: usize = 1;
    assert(dl.take(0) =~= Seq::<Seq<char>>::empty());
    assert(views(out@) =~= Seq::<Seq<char>>::empty());
    while i < n
        invariant
            n == ls@.len(),
            all == views(ls@),
            all == lines(listing@),
            dl == all.drop_first(),
            device@ == "device"@,
            1 <= i <= n,
            views(out@) == ready_devices(dl.take(i - 1)),
        decreases n - i,
    {
        let (serial, state) = first_two_words(ls[i].as_str());
        assert(dl.take(i as int) =~= dl.take(i - 1).push(all[i as int]));
        assert(dl.take(i as int).drop_last() =~= dl.take(i - 1));
        if state == device {
            let ghost before = out@;
            out.push(serial);
            assert(views(out@) =~= views(before).push(first_word(all[i as int])));
        }
        i = i + 1;
    }
    assert(dl.take(n - 1) =~= dl);
    out
}

/// `preferred` names one of `devices`.
pub open spec fn preferred_listed(devices: Seq<Seq<char>>, preferred: Option<&str>) -> bool {
    preferred matches Some(p) && devices.contains(p@)
}

/// The device to use, from the output of `adb devices -l` and the value of
/// `ANDROID_SERIAL` (if set): the preferred device when it is attached in
/// state `device`, else the first device in state `device`; an error when
/// there is none.
pub fn resolve_device_serial(out: &CommandOutput, preferred: Option<&str>) -> (res: Result<
    Option<String>,
    AdbError,
>)
    ensures
        !out.success ==> res matches Err(AdbError::DevicesFailed),
        out.success && devices_in(out.stdout@).len() == 0 ==> res matches Err(AdbError::NoDevice),
        out.success && devices_in(out.stdout@).len() > 0 && preferred_listed(
            devices_in(out.stdout@),
            preferred,
        ) ==> (res matches Ok(Some(s)) && preferred matches Some(p) && s@ == p@),
        out.success && devices_in(out.stdout@).len() > 0 && !preferred_listed(
            devices_in(out.stdout@),
            preferred,
        ) ==> (res matches Ok(Some(s)) && s@ == devices_in(out.stdout@)[0]),
{
    if !out.success {
        return Err(AdbError::DevicesFailed);
    }
    let devices = parse_devices(out.stdout.as_str());
    if devices.len() == 0 {
        return Err(AdbError::NoDevice);
    }
    if let Some(p) = preferred {
        let wanted = String::from_str(p);
        if contains_text(&devices, &wanted) {
            return Ok(Some(wanted));
        }
    }
    let first = devices[0].clone();
    assert(views(devices@)[0] == first@);
    Ok(Some(first))
}

/// The package ids that `pm list packages` lines name: each line that, trimmed,
/// starts with `package:` names what follows, trimmed.
pub open spec fn package_ids(ls: Seq<Seq<char>>) -> Seq<Seq<char>>
    decreases ls.len(),
{
    if ls.len() == 0 {
        Seq::empty()
    } else if starts_with(trim(ls.last()), "package:"@) {
        package_ids(ls.drop_last()).push(trim(trim(ls.last()).skip("package:"@.len() as int)))
    } else {
        package_ids(ls.drop_last())
    }
}

/// `s` with every repeated item after its first occurrence left out.
pub open spec fn dedup(s: Seq<Seq<char>>) -> Seq<Seq<char>>
    decreases s.len(),
{
    if s.len() == 0 {
        Seq::empty()
    } else if dedup(s.drop_last()).contains(s.last()) {
        dedup(s.drop_last())
    } else {
        dedup(s.drop_last()).push(s.last())
    }
}

/// The installed packages that the output of `pm list packages` names, each
/// once, in the order of their first mention.
pub fn list_installed_packages(out: &CommandOutput) -> (res: Result<Vec<String>, AdbError>)
    ensures
        !out.success ==> (res matches Err(AdbError::ListPackagesFailed { stderr }) && stderr@
            == out.stderr@),
        out.success ==> (res matches Ok(v) && views(v@) == dedup(
            package_ids(lines(out.stdout@)),
        )),
{
    if !out.success {
        return Err(AdbError::ListPackagesFailed { stderr: out.stderr.clone() });
    }
    let ls = split_lines(out.stdout.as_str());
    let ghost all = views(ls@);
    let n = ls.len();
    let mut ids: Vec<String> = Vec::new();
    let mut i: usize = 0;
    assert(views(ids@) =~= dedup(package_ids(all.take(0))));
    while i < n
        invariant
            n == ls@.len(),
            all == views(ls@),
            all == lines(out.stdout@),
            i <= n,
            views(ids@) == dedup(package_ids(all.take(i as int))),
        decreases n - i,
    {
        let t = trim_str(ls[i].as_str());
        let ghost prev = all.take(i as int);
        assert(all.take(i + 1).drop_last() =~= prev);
        assert(all.take(i + 1).last() == all[i as int]);
        if let Some(rest) = strip_prefix(t.as_str(), "package:") {
            let id = trim_str(rest.as_str());
            assert(package_ids(all.take(i + 1)) == package_ids(prev).push(id@));
            assert(package_ids(all.take(i + 1)).drop_last() =~= package_ids(prev));
            if !contains_text(&ids, &id) {
                let ghost before = ids@;
                ids.push(id);
                assert(views(ids@) =~= views(before).push(id@));
            }
        }
        i = i + 1;
    }
    assert(all.take(n as int) =~= all);
    Ok(ids)
}

/// What `pm uninstall` printed: standard output and standard error, each
/// trimmed, joined by a line feed when both are non-empty.
pub open spec fn combined_output(o: Seq<char>, e: Seq<char>) -> Seq<char> {
    if e.len() == 0 {
        o
    } else if o.len() == 0 {
        e
    } else {
        o + "\n"@ + e
    }
}

/// The outcome of `pm uninstall --user 0 <package>`: what it printed, or an
/// error when it failed without reporting success in any letter case.
pub fn uninstall_user_zero(package: &str, out: &CommandOutput) -> (res: Result<String, AdbError>)
    ensures
        res is Err <==> (!out.success && !contains(
            lower(combined_output(trim(out.stdout@), trim(out.stderr@))),
            "success"@,
        )),
        res matches Ok(m) ==> m@ == combined_output(trim(out.stdout@), trim(out.stderr@)),
        res matches Err(e) ==> (e matches AdbError::UninstallFailed { package: p, output }
            && p@ == package@ && output@ == combined_output(trim(out.stdout@), trim(out.stderr@))),
{
    let o = trim_str(out.stdout.as_str());
    let e = trim_str(out.stderr.as_str());
    let combined = if e.as_str().unicode_len() == 0 {
        o
    } else if o.as_str().unicode_len() == 0 {
        e
    } else {
        let mut c = o;
        c.append("\n");
        c.append(e.as_str());
        c
    };
    if !out.success && !contains_str(lowercase(combined.as_str()).as_str(), "success") {
        return Err(AdbError::UninstallFailed { package: String::from_str(package), output: combined });
    }
    Ok(combined)
}

} // verus!
