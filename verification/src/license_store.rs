//! Where the license file is read and written.
//!
//! Apt runs as root, but users keep their license at home. So it is read from
//! `.kyc/license` in the home of the user who called `sudo`, or else in
//! `$HOME`, and where there is none from the system-wide path. After a sign-in
//! it is written to the home of the user who called `sudo`, for that user alone,
//! or else to the system-wide path.
//!
//! What to do is decided here, on paths as bytes. Reading and writing files is
//! the caller's part: [`LicenseRead`] says which file to try next, and
//! [`write_plan`] lists the steps of a write.

use vstd::prelude::*;
use vstd::slice::slice_to_vec;
use vstd::utf8::*;

verus! {

/// The system-wide location of the license.
pub const SYSTEM_LICENSE_PATH: &'static str = "/etc/kyc/license";

/// The directory of the system-wide license.
pub const SYSTEM_LICENSE_DIR: &'static str = "/etc/kyc";

/// `base` with `name` as one more component.
pub open spec fn joined(base: Seq<u8>, name: Seq<u8>) -> Seq<u8> {
    if base.len() > 0 && base.last() != '/' as u8 {
        base.push('/' as u8) + name
    } else {
        base + name
    }
}

/// The directory of the license in a home directory.
pub open spec fn license_dir(home: Seq<u8>) -> Seq<u8> {
    joined(home, encode_utf8(".kyc"@))
}

/// The license in a home directory.
pub open spec fn license_in(home: Seq<u8>) -> Seq<u8> {
    joined(license_dir(home), encode_utf8("license"@))
}

pub open spec fn system_path() -> Seq<u8> {
    encode_utf8("/etc/kyc/license"@)
}

pub open spec fn system_dir() -> Seq<u8> {
    encode_utf8("/etc/kyc"@)
}

/// The file in which a license is prepared before it takes its place.
pub open spec fn temporary_for(path: Seq<u8>) -> Seq<u8> {
    path + encode_utf8(".license.tmp"@)
}

fn append(out: &mut Vec<u8>, text: &str)
    ensures
        final(out)@ == old(out)@ + encode_utf8(text@),
{
    out.extend_from_slice(text.as_bytes());
    assert(out@ == old(out)@ + encode_utf8(text@));
}

fn bytes_of(text: &str) -> (bytes: Vec<u8>)
    ensures
        bytes@ == encode_utf8(text@),
{
    slice_to_vec(text.as_bytes())
}

fn join(base: &[u8], name: &str) -> (path: Vec<u8>)
    ensures
        path@ == joined(base@, encode_utf8(name@)),
{
    let mut path = slice_to_vec(base);
    if path.len() > 0 && path[path.len() - 1] != '/' as u8 {
        path.push('/' as u8);
    }
    append(&mut path, name);
    path
}

/// The license in the home directory, where that is known.
pub fn home_license_path(home: Option<&[u8]>) -> (path: Option<Vec<u8>>)
    ensures
        match home {
            Some(h) => path matches Some(p) && p@ == license_in(h@),
            None => path is None,
        },
{
    match home {
        Some(h) => {
            let dir = join(h, ".kyc");
            Some(join(dir.as_slice(), "license"))
        },
        None => None,
    }
}

/// An account of this system.
#[derive(Debug, Clone)]
pub struct Account {
    pub home: Vec<u8>,
    pub uid: u32,
    pub gid: u32,
}

pub open spec fn opt_account(account: Option<&Account>) -> Option<Account> {
    match account {
        Some(a) => Some(*a),
        None => None,
    }
}

/// The home directory in which a license is looked for: that of `account`, the
/// user who called `sudo`, or else `home`, the one of the process.
pub open spec fn home_read(account: Option<Account>, home: Option<Seq<u8>>) -> Option<Seq<u8>> {
    match account {
        Some(a) => Some(a.home@),
        None => home,
    }
}

pub fn reading_home(account: Option<&Account>, home: Option<&[u8]>) -> (h: Option<Vec<u8>>)
    ensures
        opt_vec(h) == home_read(opt_account(account), opt_bytes(home)),
{
    match account {
        Some(a) => Some(slice_to_vec(a.home.as_slice())),
        None => match home {
            Some(h) => Some(slice_to_vec(h)),
            None => None,
        },
    }
}

/// What came of reading a file. `E` is the caller's error.
#[derive(Debug)]
pub enum FileReply<E> {
    Bytes(Vec<u8>),
    NotFound,
    Failed(E),
}

/// Which file is being tried.
#[derive(Debug)]
pub enum LicenseRead {
    Home,
    System,
}

/// What to do next about reading the license.
#[derive(Debug)]
pub enum ReadNext<E> {
    /// Read this file.
    Try(LicenseRead, Vec<u8>),
    /// The license, or none, or what went wrong.
    Done(Result<Option<Vec<u8>>, E>),
}

pub open spec fn opt_bytes(bytes: Option<&[u8]>) -> Option<Seq<u8>> {
    match bytes {
        Some(b) => Some(b@),
        None => None,
    }
}

pub open spec fn opt_vec(bytes: Option<Vec<u8>>) -> Option<Seq<u8>> {
    match bytes {
        Some(b) => Some(b@),
        None => None,
    }
}

/// Which file is tried first: that of the home directory, where it is known.
pub open spec fn first_try(home: Option<Seq<u8>>) -> LicenseRead {
    if home is Some {
        LicenseRead::Home
    } else {
        LicenseRead::System
    }
}

/// The path of the file that is being tried.
pub open spec fn path_of(which: LicenseRead, home: Option<Seq<u8>>) -> Seq<u8> {
    match which {
        LicenseRead::Home => license_in(home->0),
        LicenseRead::System => system_path(),
    }
}

/// True when `reply` about a file leads to `next`: a file that is not there
/// lets the next be tried, and any other failure is the outcome.
pub open spec fn reads_on<E>(which: LicenseRead, reply: FileReply<E>, next: ReadNext<E>) -> bool {
    match (which, reply) {
        (_, FileReply::Bytes(bytes)) => next == ReadNext::<E>::Done(Ok(Some(bytes))),
        (_, FileReply::Failed(error)) => next == ReadNext::<E>::Done(Err(error)),
        (LicenseRead::Home, FileReply::NotFound) => {
            next matches ReadNext::Try(LicenseRead::System, path) && path@ == system_path()
        },
        (LicenseRead::System, FileReply::NotFound) => next == ReadNext::<E>::Done(Ok(None)),
    }
}

impl LicenseRead {
    /// The file to try first, where `account` is the user who called `sudo`,
    /// and `home` the home directory of the process.
    pub fn start(account: Option<&Account>, home: Option<&[u8]>) -> (r: (LicenseRead, Vec<u8>))
        ensures
            ({
                let from = home_read(opt_account(account), opt_bytes(home));
                &&& r.0 == first_try(from)
                &&& r.1@ == path_of(r.0, from)
            }),
    {
        let from = reading_home(account, home);
        let path = match &from {
            Some(h) => home_license_path(Some(h.as_slice())),
            None => home_license_path(None),
        };
        match path {
            Some(path) => (LicenseRead::Home, path),
            None => (LicenseRead::System, bytes_of(SYSTEM_LICENSE_PATH)),
        }
    }

    /// Takes what came of reading a file.
    pub fn on_reply<E>(self, reply: FileReply<E>) -> (next: ReadNext<E>)
        ensures
            reads_on(self, reply, next),
    {
        match reply {
            FileReply::Bytes(bytes) => ReadNext::Done(Ok(Some(bytes))),
            FileReply::Failed(error) => ReadNext::Done(Err(error)),
            FileReply::NotFound => match self {
                LicenseRead::Home => ReadNext::Try(
                    LicenseRead::System,
                    bytes_of(SYSTEM_LICENSE_PATH),
                ),
                LicenseRead::System => ReadNext::Done(Ok(None)),
            },
        }
    }
}

/// An entry of the password database. Its home directory may be missing.
#[derive(Debug, Clone)]
pub struct PasswdEntry {
    pub home: Option<Vec<u8>>,
    pub uid: u32,
    pub gid: u32,
}

pub open spec fn lookup_result(entry: Option<PasswdEntry>, errno: i32) -> Result<
    Option<Account>,
    i32,
> {
    match entry {
        Some(PasswdEntry { home: Some(home), uid, gid }) => Ok(Some(Account { home, uid, gid })),
        Some(PasswdEntry { home: None, .. }) => Ok(None),
        None => if errno == 0 {
            Ok(None)
        } else {
            Err(errno)
        },
    }
}

/// What a lookup in the password database means: an account, none, or the
/// error number of a lookup that failed. A lookup that finds nothing and sets
/// no error number has found that there is none.
pub fn lookup_outcome(entry: Option<PasswdEntry>, errno: i32) -> (r: Result<Option<Account>, i32>)
    ensures
        r == lookup_result(entry, errno),
{
    match entry {
        Some(e) => match e.home {
            Some(home) => Ok(Some(Account { home, uid: e.uid, gid: e.gid })),
            None => Ok(None),
        },
        None => {
            if errno == 0 {
                Ok(None)
            } else {
                Err(errno)
            }
        },
    }
}

/// One step of a write.
#[derive(Debug, Clone)]
pub enum FsStep {
    /// Create the directory, and those above it, where they are missing. One
    /// that was missing gets the permissions `new_mode`, where they are given;
    /// one that was there keeps its own.
    CreateDirAll { path: Vec<u8>, new_mode: Option<u32> },
    /// Give the file or directory to this user and group.
    Chown { path: Vec<u8>, uid: u32, gid: u32 },
    /// Create or replace the file with these bytes.
    WriteFile { path: Vec<u8>, bytes: Vec<u8> },
    /// Set the permissions.
    SetMode { path: Vec<u8>, mode: u32 },
    /// Move the file, in place of what was there.
    Rename { from: Vec<u8>, to: Vec<u8> },
}

/// What an [`FsStep`] says.
pub enum StepView {
    CreateDirAll { path: Seq<u8>, new_mode: Option<u32> },
    Chown { path: Seq<u8>, uid: u32, gid: u32 },
    WriteFile { path: Seq<u8>, bytes: Seq<u8> },
    SetMode { path: Seq<u8>, mode: u32 },
    Rename { from: Seq<u8>, to: Seq<u8> },
}

impl View for FsStep {
    type V = StepView;

    open spec fn view(&self) -> StepView {
        match self {
            FsStep::CreateDirAll { path, new_mode } => StepView::CreateDirAll {
                path: path@,
                new_mode: *new_mode,
            },
            FsStep::Chown { path, uid, gid } => StepView::Chown {
                path: path@,
                uid: *uid,
                gid: *gid,
            },
            FsStep::WriteFile { path, bytes } => StepView::WriteFile {
                path: path@,
                bytes: bytes@,
            },
            FsStep::SetMode { path, mode } => StepView::SetMode { path: path@, mode: *mode },
            FsStep::Rename { from, to } => StepView::Rename { from: from@, to: to@ },
        }
    }
}

/// The steps that put `license` at `path`: prepared beside it, given its
/// permissions, and moved into place.
pub open spec fn atomic_steps(path: Seq<u8>, license: Seq<u8>, mode: u32) -> Seq<StepView> {
    seq![StepView::WriteFile { path: temporary_for(path), bytes: license }].push(
        StepView::SetMode { path: temporary_for(path), mode },
    ).push(StepView::Rename { from: temporary_for(path), to: path })
}

/// Where a license goes.
pub open spec fn license_target(account: Option<Account>) -> Seq<u8> {
    match account {
        Some(a) => license_in(a.home@),
        None => system_path(),
    }
}

/// The permissions that a license gets: for its owner alone in a home
/// directory, readable for all in the system-wide place.
pub open spec fn license_mode(account: Option<Account>) -> u32 {
    match account {
        Some(_) => 0o600,
        None => 0o644,
    }
}

/// The directory of the license.
pub open spec fn target_dir(account: Option<Account>) -> Seq<u8> {
    match account {
        Some(a) => license_dir(a.home@),
        None => system_dir(),
    }
}

/// The permissions that the directory of the license gets where it was missing:
/// for its owner alone in a home directory.
pub open spec fn new_dir_mode(account: Option<Account>) -> Option<u32> {
    match account {
        Some(_) => Some(0o700),
        None => None,
    }
}

/// The steps of a write, in their order. The first that fails is the last.
pub open spec fn write_steps(account: Option<Account>, license: Seq<u8>) -> Seq<StepView> {
    match account {
        Some(a) => seq![
            StepView::CreateDirAll {
                path: license_dir(a.home@),
                new_mode: new_dir_mode(account),
            },
        ].push(
            StepView::Chown { path: license_dir(a.home@), uid: a.uid, gid: a.gid },
        ) + atomic_steps(license_in(a.home@), license, license_mode(account)) + seq![
            StepView::Chown { path: license_in(a.home@), uid: a.uid, gid: a.gid },
        ],
        None => seq![
            StepView::CreateDirAll { path: system_dir(), new_mode: new_dir_mode(account) },
        ] + atomic_steps(
            system_path(),
            license,
            license_mode(account),
        ),
    }
}

pub open spec fn step_views(steps: Seq<FsStep>) -> Seq<StepView> {
    Seq::new(steps.len(), |i: int| steps[i]@)
}

/// How a license is written.
#[derive(Debug)]
pub struct WritePlan {
    /// Where it goes.
    pub path: Vec<u8>,
    pub steps: Vec<FsStep>,
}

fn push_atomic_write(steps: &mut Vec<FsStep>, path: &Vec<u8>, license: &[u8], mode: u32)
    ensures
        step_views(final(steps)@) == step_views(old(steps)@) + atomic_steps(
            path@,
            license@,
            mode,
        ),
{
    let mut temporary = slice_to_vec(path.as_slice());
    append(&mut temporary, ".license.tmp");
    let again = slice_to_vec(temporary.as_slice());
    let from = slice_to_vec(temporary.as_slice());
    let to = slice_to_vec(path.as_slice());
    steps.push(FsStep::WriteFile { path: temporary, bytes: slice_to_vec(license) });
    steps.push(FsStep::SetMode { path: again, mode });
    steps.push(FsStep::Rename { from, to });
    assert(step_views(steps@) =~= step_views(old(steps)@) + atomic_steps(path@, license@, mode));
}

/// How to write `license`: to the home of `account`, the user who called
/// `sudo`, or where there is none to the system-wide place.
pub fn write_plan(account: Option<&Account>, license: &[u8]) -> (plan: WritePlan)
    ensures
        plan.path@ == license_target(opt_account(account)),
        step_views(plan.steps@) == write_steps(opt_account(account), license@),
{
    let mut steps: Vec<FsStep> = Vec::new();
    match account {
        Some(a) => {
            let dir = join(a.home.as_slice(), ".kyc");
            let path = join(dir.as_slice(), "license");
            steps.push(
                FsStep::CreateDirAll {
                    path: slice_to_vec(dir.as_slice()),
                    new_mode: Some(0o700),
                },
            );
            steps.push(FsStep::Chown { path: dir, uid: a.uid, gid: a.gid });
            assert(step_views(steps@) =~= seq![
                StepView::CreateDirAll { path: license_dir(a.home@), new_mode: Some(0o700u32) },
            ].push(StepView::Chown { path: license_dir(a.home@), uid: a.uid, gid: a.gid }));
            push_atomic_write(&mut steps, &path, license, 0o600);
            let ghost before = step_views(steps@);
            steps.push(
                FsStep::Chown { path: slice_to_vec(path.as_slice()), uid: a.uid, gid: a.gid },
            );
            assert(step_views(steps@) =~= before + seq![
                StepView::Chown { path: license_in(a.home@), uid: a.uid, gid: a.gid },
            ]);
            WritePlan { path, steps }
        },
        None => {
            let path = bytes_of(SYSTEM_LICENSE_PATH);
            steps.push(
                FsStep::CreateDirAll { path: bytes_of(SYSTEM_LICENSE_DIR), new_mode: None },
            );
            push_atomic_write(&mut steps, &path, license, 0o644);
            assert(step_views(steps@) =~= write_steps(None, license@));
            WritePlan { path, steps }
        },
    }
}

} // verus!
