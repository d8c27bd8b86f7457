//! Laws of the license store, over a file system that is a map from paths to
//! files.

use vstd::prelude::*;
use vstd::utf8::*;

use crate::license_store;
use crate::license_store::{
    Account, FileReply, FsStep, LicenseRead, PasswdEntry, ReadNext, StepView,
};
use crate::text_laws;

verus! {

/// A file: what it holds, and its permissions.
pub struct FileView {
    pub bytes: Seq<u8>,
    pub mode: u32,
}

/// The files of a system, by their paths.
pub type Files = Map<Seq<u8>, FileView>;

/// The files after one step. A file that is created gets the permissions
/// `fresh_mode`.
pub open spec fn after_step(files: Files, step: StepView, fresh_mode: u32) -> Files {
    match step {
        StepView::CreateDirAll { .. } => files,
        StepView::Chown { .. } => files,
        StepView::WriteFile { path, bytes } => files.insert(
            path,
            FileView {
                bytes,
                mode: if files.contains_key(path) {
                    files[path].mode
                } else {
                    fresh_mode
                },
            },
        ),
        StepView::SetMode { path, mode } => if files.contains_key(path) {
            files.insert(path, FileView { bytes: files[path].bytes, mode })
        } else {
            files
        },
        StepView::Rename { from, to } => if files.contains_key(from) {
            files.remove(from).insert(to, files[from])
        } else {
            files
        },
    }
}

/// The files after `steps`.
pub open spec fn after_steps(files: Files, steps: Seq<StepView>, fresh_mode: u32) -> Files
    decreases steps.len(),
{
    if steps.len() == 0 {
        files
    } else {
        after_step(after_steps(files, steps.drop_last(), fresh_mode), steps.last(), fresh_mode)
    }
}

/// The license that a reader finds: that of its home directory, or else the
/// system-wide one.
pub open spec fn found_license(files: Files, home: Option<Seq<u8>>) -> Option<Seq<u8>> {
    if home is Some && files.contains_key(license_store::license_in(home->0)) {
        Some(files[license_store::license_in(home->0)].bytes)
    } else if files.contains_key(license_store::system_path()) {
        Some(files[license_store::system_path()].bytes)
    } else {
        None
    }
}

/// True when `reply` is what reading `path` gives.
pub open spec fn shows<E>(files: Files, path: Seq<u8>, reply: FileReply<E>) -> bool {
    match reply {
        FileReply::Bytes(bytes) => files.contains_key(path) && bytes@ == files[path].bytes,
        FileReply::NotFound => !files.contains_key(path),
        FileReply::Failed(_) => false,
    }
}

/// Reading takes the license of the home directory before the system-wide
/// one, and none where there is neither.
pub proof fn law_home_before_system<E>(
    files: Files,
    home: Option<Seq<u8>>,
    reply: FileReply<E>,
    next: ReadNext<E>,
    second_reply: FileReply<E>,
    second_next: ReadNext<E>,
)
    requires
        shows(
            files,
            license_store::path_of(license_store::first_try(home), home),
            reply,
        ),
        license_store::reads_on(license_store::first_try(home), reply, next),
        next matches ReadNext::Try(which, path) ==> shows(files, path@, second_reply)
            && license_store::reads_on(which, second_reply, second_next),
    ensures
        ({
            let outcome = if next is Try {
                second_next
            } else {
                next
            };
            match found_license(files, home) {
                Some(license) => outcome matches ReadNext::Done(Ok(Some(bytes))) && bytes@
                    == license,
                None => outcome == ReadNext::<E>::Done(Ok(None)),
            }
        }),
{
}

/// True when `now` differs from `before` at `path` only in that the whole
/// license stands there, with its permissions.
pub open spec fn old_or_whole(
    before: Files,
    now: Files,
    path: Seq<u8>,
    license: Seq<u8>,
    mode: u32,
) -> bool {
    ||| now.contains_key(path) == before.contains_key(path) && (now.contains_key(path) ==> now[path]
        == before[path])
    ||| now.contains_key(path) && now[path] == (FileView { bytes: license, mode })
}

proof fn lemma_atomic_steps(
    files: Files,
    path: Seq<u8>,
    license: Seq<u8>,
    mode: u32,
    fresh_mode: u32,
    n: int,
)
    requires
        0 <= n <= 3,
        path != license_store::temporary_for(path),
    ensures
        ({
            let steps = license_store::atomic_steps(path, license, mode);
            let now = after_steps(files, steps.take(n), fresh_mode);
            &&& steps.len() == 3
            &&& old_or_whole(files, now, path, license, mode)
            &&& n == 3 ==> now == files.remove(license_store::temporary_for(path)).insert(
                path,
                FileView { bytes: license, mode },
            )
        }),
{
    let steps = license_store::atomic_steps(path, license, mode);
    let t0 = after_steps(files, steps.take(0), fresh_mode);
    let t1 = after_steps(files, steps.take(1), fresh_mode);
    let t2 = after_steps(files, steps.take(2), fresh_mode);
    let t3 = after_steps(files, steps.take(3), fresh_mode);
    assert(steps.take(1).drop_last() == steps.take(0));
    assert(steps.take(2).drop_last() == steps.take(1));
    assert(steps.take(3).drop_last() == steps.take(2));
    assert(t0 == files);
    assert(t1 == after_step(t0, steps[0], fresh_mode));
    assert(t2 == after_step(t1, steps[1], fresh_mode));
    assert(t3 == after_step(t2, steps[2], fresh_mode));
    assert(t3 =~= files.remove(license_store::temporary_for(path)).insert(
        path,
        FileView { bytes: license, mode },
    ));
}

proof fn lemma_temporary_is_another(path: Seq<u8>)
    ensures
        path != license_store::temporary_for(path),
{
    reveal_strlit(".license.tmp");
    is_ascii_chars_encode_utf8(".license.tmp"@);
    assert(license_store::temporary_for(path).len() == path.len() + 12);
}

proof fn lemma_after_steps_concat(
    files: Files,
    a: Seq<StepView>,
    b: Seq<StepView>,
    fresh_mode: u32,
)
    ensures
        after_steps(files, a + b, fresh_mode) == after_steps(
            after_steps(files, a, fresh_mode),
            b,
            fresh_mode,
        ),
    decreases b.len(),
{
    if b.len() == 0 {
        assert(a + b == a);
    } else {
        assert((a + b).drop_last() == a + b.drop_last());
        assert((a + b).last() == b.last());
        lemma_after_steps_concat(files, a, b.drop_last(), fresh_mode);
    }
}

/// The steps before the atomic part of a write, and those behind it.
pub open spec fn steps_before(account: Option<Account>) -> Seq<StepView> {
    match account {
        Some(a) => seq![
            StepView::CreateDirAll {
                path: license_store::license_dir(a.home@),
                new_mode: license_store::new_dir_mode(account),
            },
        ].push(
            StepView::Chown {
                path: license_store::license_dir(a.home@),
                uid: a.uid,
                gid: a.gid,
            },
        ),
        None => seq![
            StepView::CreateDirAll {
                path: license_store::system_dir(),
                new_mode: license_store::new_dir_mode(account),
            },
        ],
    }
}

proof fn lemma_steps_before_change_nothing(
    files: Files,
    account: Option<Account>,
    fresh_mode: u32,
    n: int,
)
    requires
        0 <= n <= steps_before(account).len(),
    ensures
        after_steps(files, steps_before(account).take(n), fresh_mode) == files,
    decreases n,
{
    if n > 0 {
        lemma_steps_before_change_nothing(files, account, fresh_mode, n - 1);
        assert(steps_before(account).take(n).drop_last() == steps_before(account).take(n - 1));
    }
}

/// A license is written whole or not at all: after any number of the steps
/// its file is as it was before, or holds the whole license with its
/// permissions.
pub proof fn law_write_is_atomic(
    files: Files,
    account: Option<Account>,
    license: Seq<u8>,
    fresh_mode: u32,
    n: int,
)
    requires
        0 <= n <= license_store::write_steps(account, license).len(),
    ensures
        old_or_whole(
            files,
            after_steps(
                files,
                license_store::write_steps(account, license).take(n),
                fresh_mode,
            ),
            license_store::license_target(account),
            license,
            license_store::license_mode(account),
        ),
        n == license_store::write_steps(account, license).len() ==> after_steps(
            files,
            license_store::write_steps(account, license).take(n),
            fresh_mode,
        ) == files.remove(
            license_store::temporary_for(license_store::license_target(account)),
        ).insert(
            license_store::license_target(account),
            FileView { bytes: license, mode: license_store::license_mode(account) },
        ),
{
    let steps = license_store::write_steps(account, license);
    let path = license_store::license_target(account);
    let mode = license_store::license_mode(account);
    let before = steps_before(account);
    let middle = license_store::atomic_steps(path, license, mode);
    let k = before.len() as int;
    lemma_temporary_is_another(path);
    lemma_atomic_steps(files, path, license, mode, fresh_mode, 3);
    if n <= k {
        assert(steps.take(n) == before.take(n));
        lemma_steps_before_change_nothing(files, account, fresh_mode, n);
    } else {
        lemma_steps_before_change_nothing(files, account, fresh_mode, k);
        assert(before.take(k) == before);
        if n <= k + 3 {
            lemma_atomic_steps(files, path, license, mode, fresh_mode, n - k);
            assert(steps.take(n) == before + middle.take(n - k));
            lemma_after_steps_concat(files, before, middle.take(n - k), fresh_mode);
            assert(middle.take(3) == middle);
        } else {
            assert(account is Some);
            assert(n == k + 4);
            assert(steps.take(n).drop_last() == before + middle);
            lemma_after_steps_concat(files, before, middle, fresh_mode);
            assert(middle.take(3) == middle);
        }
    }
}

/// The directories of a system and their permissions, by their paths.
pub type Dirs = Map<Seq<u8>, u32>;

/// The directories after one step. A directory that is created gets `fresh_mode` where the step gives none.
pub open spec fn dirs_after_step(dirs: Dirs, step: StepView, fresh_mode: u32) -> Dirs {
    match step {
        StepView::CreateDirAll { path, new_mode } => if dirs.contains_key(path) {
            dirs
        } else {
            dirs.insert(
                path,
                match new_mode {
                    Some(mode) => mode,
                    None => fresh_mode,
                },
            )
        },
        StepView::SetMode { path, mode } => if dirs.contains_key(path) {
            dirs.insert(path, mode)
        } else {
            dirs
        },
        _ => dirs,
    }
}

pub open spec fn dirs_after_steps(dirs: Dirs, steps: Seq<StepView>, fresh_mode: u32) -> Dirs
    decreases steps.len(),
{
    if steps.len() == 0 {
        dirs
    } else {
        dirs_after_step(
            dirs_after_steps(dirs, steps.drop_last(), fresh_mode),
            steps.last(),
            fresh_mode,
        )
    }
}

proof fn lemma_dirs_after_steps(
    dirs: Dirs,
    steps: Seq<StepView>,
    path: Seq<u8>,
    temporary: Seq<u8>,
    new_mode: Option<u32>,
    fresh_mode: u32,
)
    requires
        steps.len() > 0,
        steps[0] == (StepView::CreateDirAll { path, new_mode }),
        forall|i: int| 1 <= i < steps.len() ==> !(#[trigger] steps[i] is CreateDirAll),
        forall|i: int|
            1 <= i < steps.len() ==> (#[trigger] steps[i] matches StepView::SetMode { path: p, .. }
                ==> p != path && p == temporary),
    ensures
        forall|p: Seq<u8>|
            p != path && p != temporary ==> {
                &&& #[trigger] dirs_after_steps(dirs, steps, fresh_mode).contains_key(p)
                    == dirs.contains_key(p)
                &&& dirs.contains_key(p) ==> dirs_after_steps(dirs, steps, fresh_mode)[p] == dirs[p]
            },
        dirs_after_steps(dirs, steps, fresh_mode).contains_key(path),
        dirs_after_steps(dirs, steps, fresh_mode)[path] == dirs_after_step(
            dirs,
            steps[0],
            fresh_mode,
        )[path],
    decreases steps.len(),
{
    let init = steps.drop_last();
    if steps.len() == 1 {
        assert(dirs_after_steps(dirs, init, fresh_mode) == dirs);
    } else {
        assert forall|i: int| 1 <= i < init.len() implies !(#[trigger] init[i] is CreateDirAll) by {
            assert(init[i] == steps[i]);
        }
        assert forall|i: int| 1 <= i < init.len() implies (#[trigger] init[i] matches
            StepView::SetMode { path: p, .. } ==> p != path && p == temporary) by {
            assert(init[i] == steps[i]);
        }
        lemma_dirs_after_steps(dirs, init, path, temporary, new_mode, fresh_mode);
        assert(steps.last() == steps[steps.len() - 1]);
    }
}

proof fn lemma_joined_is_longer(base: Seq<u8>, name: Seq<u8>)
    ensures
        license_store::joined(base, name).len() >= base.len() + name.len(),
{
}

/// The directory of the license keeps its permissions where it was there. Where
/// it was not, it is for its owner alone in a home directory, and gets what the
/// system gives in the system-wide place. Other directories stay as they are.
pub proof fn law_directory_mode(
    dirs: Dirs,
    account: Option<Account>,
    license: Seq<u8>,
    fresh_mode: u32,
)
    ensures
        ({
            let dir = license_store::target_dir(account);
            let after = dirs_after_steps(
                dirs,
                license_store::write_steps(account, license),
                fresh_mode,
            );
            &&& after.contains_key(dir)
            &&& after[dir] == (if dirs.contains_key(dir) {
                dirs[dir]
            } else if account is Some {
                0o700
            } else {
                fresh_mode
            })
            &&& forall|p: Seq<u8>|
                p != dir && p != license_store::temporary_for(
                    license_store::license_target(account),
                ) ==> {
                    &&& #[trigger] after.contains_key(p) == dirs.contains_key(p)
                    &&& dirs.contains_key(p) ==> after[p] == dirs[p]
                }
        }),
{
    let steps = license_store::write_steps(account, license);
    let dir = license_store::target_dir(account);
    let target = license_store::license_target(account);
    let temporary = license_store::temporary_for(target);
    reveal_strlit(".license.tmp");
    is_ascii_chars_encode_utf8(".license.tmp"@);
    assert(temporary.len() == target.len() + 12);
    assert(target.len() >= dir.len()) by {
        match account {
            Some(a) => {
                lemma_joined_is_longer(dir, encode_utf8("license"@));
            },
            None => {
                reveal_strlit("/etc/kyc/license");
                reveal_strlit("/etc/kyc");
                is_ascii_chars_encode_utf8("/etc/kyc/license"@);
                is_ascii_chars_encode_utf8("/etc/kyc"@);
            },
        }
    }
    assert(temporary != dir);
    lemma_dirs_after_steps(
        dirs,
        steps,
        dir,
        temporary,
        license_store::new_dir_mode(account),
        fresh_mode,
    );
}

/// What was written is read, whatever `home` is, the home directory of the
/// process: from the home of the user who called `sudo`, or where there is no
/// such user, and no license at `home`, from the system-wide place.
pub proof fn law_read_after_write(
    files: Files,
    account: Option<Account>,
    license: Seq<u8>,
    home: Option<Seq<u8>>,
    fresh_mode: u32,
)
    requires
        account is None && home is Some ==> !files.contains_key(
            license_store::license_in(home->0),
        ),
    ensures
        found_license(
            after_steps(files, license_store::write_steps(account, license), fresh_mode),
            license_store::home_read(account, home),
        ) == Some(license),
{
    let steps = license_store::write_steps(account, license);
    law_write_is_atomic(files, account, license, fresh_mode, steps.len() as int);
    assert(steps.take(steps.len() as int) == steps);
    lemma_temporary_is_another(license_store::license_target(account));
}

/// Where licenses are: in the directory `.kyc` of a home, under the name
/// `license`, and at `/etc/kyc/license`. One is prepared in a file beside it.
pub proof fn law_license_paths(home: Seq<u8>, path: Seq<u8>)
    ensures
        home.len() > 0 && home.last() != 0x2f ==> {
            &&& license_store::license_dir(home) == home + encode_utf8("/.kyc"@)
            &&& license_store::license_in(home) == home + encode_utf8("/.kyc/license"@)
        },
        home.len() == 0 || home.last() == 0x2f ==> {
            &&& license_store::license_dir(home) == home + encode_utf8(".kyc"@)
            &&& license_store::license_in(home) == home + encode_utf8(".kyc/license"@)
        },
        license_store::system_path() == encode_utf8("/etc/kyc/license"@),
        license_store::system_dir() == encode_utf8("/etc/kyc"@),
        license_store::temporary_for(path) == path + encode_utf8(".license.tmp"@),
{
    reveal_strlit("/");
    reveal_strlit(".kyc");
    reveal_strlit("license");
    reveal_strlit("/license");
    reveal_strlit("/.kyc");
    reveal_strlit("/.kyc/license");
    reveal_strlit(".kyc/license");
    lemma_slash_is_one_byte();
    let slash = seq![0x2fu8];
    let kyc = encode_utf8(".kyc"@);
    let license = encode_utf8("license"@);
    assert("/"@ + ".kyc"@ =~= "/.kyc"@);
    assert("/"@ + "license"@ =~= "/license"@);
    assert(".kyc"@ + "/license"@ =~= ".kyc/license"@);
    assert("/.kyc"@ + "/license"@ =~= "/.kyc/license"@);
    text_laws::lemma_encode_concat("/"@, ".kyc"@);
    text_laws::lemma_encode_concat("/"@, "license"@);
    text_laws::lemma_encode_concat(".kyc"@, "/license"@);
    text_laws::lemma_encode_concat("/.kyc"@, "/license"@);
    is_ascii_chars_encode_utf8(".kyc"@);
    let dir = license_store::license_dir(home);
    assert(kyc.last() != 0x2f && kyc.len() == 4);
    assert(dir.last() == kyc.last());
    if home.len() > 0 && home.last() != 0x2f {
        assert(dir =~= home + (slash + kyc));
        assert(license_store::license_in(home) =~= dir + (slash + license));
        assert(home + (slash + kyc) + (slash + license) =~= home + (slash + kyc + (slash
            + license)));
    } else {
        assert(dir =~= home + kyc);
        assert(license_store::license_in(home) =~= dir + (slash + license));
        assert(home + kyc + (slash + license) =~= home + (kyc + (slash + license)));
    }
}

proof fn lemma_slash_is_one_byte()
    ensures
        encode_utf8("/"@) == seq![0x2fu8],
{
    reveal_strlit("/");
    reveal_with_fuel(encode_utf8, 2);
    assert(leading_byte_width_1(0x2fu32) == 0x2fu8) by (bit_vector);
    assert("/"@.drop_first() =~= Seq::<char>::empty());
    assert(encode_utf8("/"@) =~= seq![0x2fu8]);
}

/// Whose home is read: that of the user who called `sudo`, whatever the home of
/// the process is, and that of the process where there is no such user.
pub proof fn law_home_that_is_read(account: Account, home: Option<Seq<u8>>)
    ensures
        license_store::home_read(Some(account), home) == Some(account.home@),
        license_store::home_read(None, home) == home,
{
}

/// Reading begins at home, where there is one, and ends with the first file that
/// is there or cannot be read. Only a file that is not there lets the next be
/// tried, and there is none behind the system-wide one.
pub proof fn law_reading<E>(
    home: Option<Seq<u8>>,
    which: LicenseRead,
    reply: FileReply<E>,
    next: ReadNext<E>,
)
    requires
        license_store::reads_on(which, reply, next),
    ensures
        home matches Some(h) ==> license_store::path_of(license_store::first_try(home), home)
            == license_store::license_in(h),
        home is None ==> license_store::path_of(license_store::first_try(home), home)
            == license_store::system_path(),
        reply matches FileReply::Bytes(bytes) ==> next == ReadNext::<E>::Done(Ok(Some(bytes))),
        reply matches FileReply::Failed(error) ==> next == ReadNext::<E>::Done(Err(error)),
        reply is NotFound && which is System ==> next == ReadNext::<E>::Done(Ok(None)),
        reply is NotFound && which is Home ==> (next matches ReadNext::Try(then, path)
            && then is System && path@ == license_store::system_path()),
{
}

/// Where a license is written, and who may read it: in the home of the user who
/// called `sudo`, that user alone, and else everybody.
pub proof fn law_where_a_license_goes(account: Account)
    ensures
        license_store::license_target(Some(account)) == license_store::license_in(account.home@),
        license_store::target_dir(Some(account)) == license_store::license_dir(account.home@),
        license_store::license_mode(Some(account)) == 0o600,
        license_store::license_target(None) == license_store::system_path(),
        license_store::target_dir(None) == license_store::system_dir(),
        license_store::license_mode(None) == 0o644,
{
}

/// The owners of files and directories, by their paths.
pub type Owners = Map<Seq<u8>, (u32, u32)>;

/// The owners after one step of a process whose files are `own`.
pub open spec fn owners_after_step(owners: Owners, step: StepView, own: (u32, u32)) -> Owners {
    match step {
        StepView::Chown { path, uid, gid } => owners.insert(path, (uid, gid)),
        StepView::CreateDirAll { path, .. } => if owners.contains_key(path) {
            owners
        } else {
            owners.insert(path, own)
        },
        StepView::WriteFile { path, .. } => if owners.contains_key(path) {
            owners
        } else {
            owners.insert(path, own)
        },
        StepView::Rename { from, to } => if owners.contains_key(from) {
            owners.remove(from).insert(to, owners[from])
        } else {
            owners
        },
        StepView::SetMode { .. } => owners,
    }
}

pub open spec fn owners_after_steps(owners: Owners, steps: Seq<StepView>, own: (u32, u32)) -> Owners
    decreases steps.len(),
{
    if steps.len() == 0 {
        owners
    } else {
        owners_after_step(
            owners_after_steps(owners, steps.drop_last(), own),
            steps.last(),
            own,
        )
    }
}

/// The license of the user who called `sudo`, and its directory, belong to that
/// user when it has been written. Nothing else is given to anybody.
pub proof fn law_license_belongs_to_the_user(
    owners: Owners,
    account: Account,
    license: Seq<u8>,
    own: (u32, u32),
)
    ensures
        ({
            let after = owners_after_steps(
                owners,
                license_store::write_steps(Some(account), license),
                own,
            );
            let file = license_store::license_in(account.home@);
            let dir = license_store::license_dir(account.home@);
            &&& after.contains_key(file) && after[file] == (account.uid, account.gid)
            &&& after.contains_key(dir) && after[dir] == (account.uid, account.gid)
            &&& after == owners.insert(dir, (account.uid, account.gid)).remove(
                license_store::temporary_for(file),
            ).insert(file, (account.uid, account.gid))
        }),
{
    let steps = license_store::write_steps(Some(account), license);
    let file = license_store::license_in(account.home@);
    let dir = license_store::license_dir(account.home@);
    let tmp = license_store::temporary_for(file);
    reveal_strlit(".license.tmp");
    reveal_strlit("license");
    is_ascii_chars_encode_utf8(".license.tmp"@);
    is_ascii_chars_encode_utf8("license"@);
    assert(tmp.len() == file.len() + 12);
    lemma_joined_is_longer(dir, encode_utf8("license"@));
    assert(file.len() > dir.len());
    assert(tmp != dir && file != dir && tmp != file);
    assert(steps.len() == 6);
    let t0 = owners_after_steps(owners, steps.take(0), own);
    let t1 = owners_after_steps(owners, steps.take(1), own);
    let t2 = owners_after_steps(owners, steps.take(2), own);
    let t3 = owners_after_steps(owners, steps.take(3), own);
    let t4 = owners_after_steps(owners, steps.take(4), own);
    let t5 = owners_after_steps(owners, steps.take(5), own);
    let t6 = owners_after_steps(owners, steps.take(6), own);
    assert(steps.take(1).drop_last() =~= steps.take(0));
    assert(steps.take(2).drop_last() =~= steps.take(1));
    assert(steps.take(3).drop_last() =~= steps.take(2));
    assert(steps.take(4).drop_last() =~= steps.take(3));
    assert(steps.take(5).drop_last() =~= steps.take(4));
    assert(steps.take(6).drop_last() =~= steps.take(5));
    assert(steps.take(6) =~= steps);
    assert(t1 == owners_after_step(t0, steps[0], own));
    assert(t2 == owners_after_step(t1, steps[1], own));
    assert(t3 == owners_after_step(t2, steps[2], own));
    assert(t4 == owners_after_step(t3, steps[3], own));
    assert(t5 == owners_after_step(t4, steps[4], own));
    assert(t6 == owners_after_step(t5, steps[5], own));
    assert(t2[dir] == (account.uid, account.gid));
    assert(t6 =~= owners.insert(dir, (account.uid, account.gid)).remove(tmp).insert(
        file,
        (account.uid, account.gid),
    ));
}

/// A license for the system is given to nobody.
pub proof fn law_system_license_is_not_given_away(license: Seq<u8>, i: int)
    requires
        0 <= i < license_store::write_steps(None, license).len(),
    ensures
        !(license_store::write_steps(None, license)[i] is Chown),
{
}

/// What a lookup means: an account with a home is found as it is; one without a
/// home, or a name that is not known, is none; and a lookup that failed is an
/// error.
pub proof fn law_lookup(entry: PasswdEntry, errno: i32)
    ensures
        entry.home matches Some(home) ==> (license_store::lookup_result(Some(entry), errno) matches
            Ok(Some(account)) && account.home == home && account.uid == entry.uid && account.gid
            == entry.gid),
        entry.home is None ==> license_store::lookup_result(Some(entry), errno) == Ok::<
            Option<Account>,
            i32,
        >(None),
        license_store::lookup_result(None, 0) == Ok::<Option<Account>, i32>(None),
        errno != 0 ==> license_store::lookup_result(None, errno) == Err::<Option<Account>, i32>(
            errno,
        ),
{
}

/// What is said of steps, accounts and bytes is what they hold.
pub proof fn law_steps_show_all(
    step: FsStep,
    steps: Seq<FsStep>,
    account: &Account,
    bytes: &[u8],
    owned: Vec<u8>,
)
    ensures
        license_store::step_views(steps).len() == steps.len(),
        forall|i: int|
            0 <= i < steps.len() ==> #[trigger] license_store::step_views(steps)[i] == steps[i]@,
        license_store::opt_account(Some(account)) == Some(*account),
        license_store::opt_account(None) is None,
        license_store::opt_bytes(Some(bytes)) == Some(bytes@),
        license_store::opt_bytes(None) is None,
        license_store::opt_vec(Some(owned)) == Some(owned@),
        license_store::opt_vec(None) is None,
        match step {
            FsStep::CreateDirAll { path, new_mode } => step@ == (StepView::CreateDirAll {
                path: path@,
                new_mode,
            }),
            FsStep::Chown { path, uid, gid } => step@ == (StepView::Chown { path: path@, uid, gid }),
            FsStep::WriteFile { path, bytes } => step@ == (StepView::WriteFile {
                path: path@,
                bytes: bytes@,
            }),
            FsStep::SetMode { path, mode } => step@ == (StepView::SetMode { path: path@, mode }),
            FsStep::Rename { from, to } => step@ == (StepView::Rename { from: from@, to: to@ }),
        },
{
}

} // verus!
