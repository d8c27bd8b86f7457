use apt_transport_kyc::license_store::{
    home_license_path, lookup_outcome, reading_home, write_plan, Account, FileReply, FsStep, LicenseRead,
    PasswdEntry, ReadNext, SYSTEM_LICENSE_DIR, SYSTEM_LICENSE_PATH,
};

fn account() -> Account {
    Account { home: b"/home/ada".to_vec(), uid: 1000, gid: 1001 }
}

/// Reads with what each file holds; gives the paths that were tried.
fn read(
    home: Option<&[u8]>,
    reply: impl Fn(&[u8]) -> FileReply<&'static str>,
) -> (Vec<Vec<u8>>, Result<Option<Vec<u8>>, &'static str>) {
    read_for(None, home, reply)
}

/// The same for the user who called `sudo`.
fn read_for(
    who: Option<&Account>,
    home: Option<&[u8]>,
    reply: impl Fn(&[u8]) -> FileReply<&'static str>,
) -> (Vec<Vec<u8>>, Result<Option<Vec<u8>>, &'static str>) {
    let mut tried = Vec::new();
    let (mut state, mut path) = LicenseRead::start(who, home);
    loop {
        let answer = reply(&path);
        tried.push(path);
        match state.on_reply(answer) {
            ReadNext::Try(next, next_path) => {
                state = next;
                path = next_path;
            }
            ReadNext::Done(result) => return (tried, result),
        }
    }
}

#[test]
fn the_system_wide_place() {
    assert_eq!(SYSTEM_LICENSE_PATH, "/etc/kyc/license");
    assert_eq!(SYSTEM_LICENSE_DIR, "/etc/kyc");
}

#[test]
fn the_license_in_a_home() {
    let path = |home: &str| {
        let expected = std::path::Path::new(home).join(".kyc").join("license");
        let got = home_license_path(Some(home.as_bytes())).unwrap();
        assert_eq!(got, expected.to_str().unwrap().as_bytes());
    };
    path("/root");
    path("/root/");
    path("");
    path("/");
    path("home");
    assert_eq!(home_license_path(None), None);
    assert_eq!(home_license_path(Some(b"/root")).unwrap(), b"/root/.kyc/license");
}

#[test]
fn the_home_comes_before_the_system() {
    let (tried, result) = read(Some(b"/root"), |_| FileReply::Bytes(b"pem".to_vec()));
    assert_eq!(tried, vec![b"/root/.kyc/license".to_vec()]);
    assert_eq!(result, Ok(Some(b"pem".to_vec())));
}

#[test]
fn the_system_is_read_where_the_home_has_none() {
    let (tried, result) = read(Some(b"/root"), |path| {
        if path == SYSTEM_LICENSE_PATH.as_bytes() {
            FileReply::Bytes(b"sys".to_vec())
        } else {
            FileReply::NotFound
        }
    });
    assert_eq!(tried, vec![b"/root/.kyc/license".to_vec(), b"/etc/kyc/license".to_vec()]);
    assert_eq!(result, Ok(Some(b"sys".to_vec())));
}

#[test]
fn without_a_home_only_the_system_is_read() {
    let (tried, result) = read(None, |_| FileReply::NotFound);
    assert_eq!(tried, vec![b"/etc/kyc/license".to_vec()]);
    assert_eq!(result, Ok(None));
}

#[test]
fn the_home_of_the_user_who_called_sudo_is_read() {
    let home: &[u8] = b"/root";
    assert_eq!(reading_home(Some(&account()), Some(home)).unwrap(), b"/home/ada");
    assert_eq!(reading_home(Some(&account()), None).unwrap(), b"/home/ada");
    assert_eq!(reading_home(None, Some(home)).unwrap(), b"/root");
    assert_eq!(reading_home(None, None), None);
    let (tried, result) = read_for(Some(&account()), Some(home), |_| FileReply::NotFound);
    assert_eq!(tried, vec![b"/home/ada/.kyc/license".to_vec(), b"/etc/kyc/license".to_vec()]);
    assert_eq!(result, Ok(None));
}

#[test]
fn neither_is_there() {
    let (tried, result) = read(Some(b"/root"), |_| FileReply::NotFound);
    assert_eq!(tried.len(), 2);
    assert_eq!(result, Ok(None));
}

#[test]
fn a_file_that_cannot_be_read_is_an_error() {
    let (tried, result) = read(Some(b"/root"), |_| FileReply::Failed("denied"));
    assert_eq!(tried.len(), 1);
    assert_eq!(result, Err("denied"));
    let (tried, result) = read(None, |_| FileReply::Failed("denied"));
    assert_eq!(tried.len(), 1);
    assert_eq!(result, Err("denied"));
}

#[test]
fn looking_up_an_account() {
    let entry = PasswdEntry { home: Some(b"/home/ada".to_vec()), uid: 1000, gid: 1001 };
    let found = lookup_outcome(Some(entry), 2).unwrap().unwrap();
    assert_eq!(found.home, b"/home/ada");
    assert_eq!((found.uid, found.gid), (1000, 1001));
    let homeless = PasswdEntry { home: None, uid: 1, gid: 1 };
    assert!(lookup_outcome(Some(homeless), 2).unwrap().is_none());
    assert!(lookup_outcome(None, 0).unwrap().is_none());
    assert_eq!(lookup_outcome(None, 5).unwrap_err(), 5);
}

#[test]
fn a_license_for_the_user_who_called_sudo() {
    let plan = write_plan(Some(&account()), b"pem");
    assert_eq!(plan.path, b"/home/ada/.kyc/license");
    assert_eq!(plan.steps.len(), 6);
    assert!(matches!(&plan.steps[0], FsStep::CreateDirAll { path, new_mode: Some(0o700) }
        if path == b"/home/ada/.kyc"));
    assert!(matches!(&plan.steps[1],
        FsStep::Chown { path, uid: 1000, gid: 1001 } if path == b"/home/ada/.kyc"));
    assert!(matches!(&plan.steps[2], FsStep::WriteFile { path, bytes }
        if path == b"/home/ada/.kyc/license.license.tmp" && bytes == b"pem"));
    assert!(matches!(&plan.steps[3], FsStep::SetMode { path, mode: 0o600 }
        if path == b"/home/ada/.kyc/license.license.tmp"));
    assert!(matches!(&plan.steps[4], FsStep::Rename { from, to }
        if from == b"/home/ada/.kyc/license.license.tmp" && to == b"/home/ada/.kyc/license"));
    assert!(matches!(&plan.steps[5],
        FsStep::Chown { path, uid: 1000, gid: 1001 } if path == b"/home/ada/.kyc/license"));
}

#[test]
fn a_license_for_the_system() {
    let plan = write_plan(None, b"pem");
    assert_eq!(plan.path, SYSTEM_LICENSE_PATH.as_bytes());
    assert_eq!(plan.steps.len(), 4);
    assert!(matches!(&plan.steps[0], FsStep::CreateDirAll { path, new_mode: None }
        if path == b"/etc/kyc"));
    assert!(matches!(&plan.steps[1], FsStep::WriteFile { path, bytes }
        if path == b"/etc/kyc/license.license.tmp" && bytes == b"pem"));
    assert!(matches!(&plan.steps[2], FsStep::SetMode { path, mode: 0o644 }
        if path == b"/etc/kyc/license.license.tmp"));
    assert!(matches!(&plan.steps[3], FsStep::Rename { from, to }
        if from == b"/etc/kyc/license.license.tmp" && to == b"/etc/kyc/license"));
}

#[test]
fn the_temporary_file_is_named_after_the_license() {
    let path = std::path::Path::new(SYSTEM_LICENSE_PATH).with_extension("license.tmp");
    let plan = write_plan(None, b"");
    assert!(matches!(&plan.steps[1], FsStep::WriteFile { path: p, .. }
        if p == path.to_str().unwrap().as_bytes()));
}

#[test]
fn a_new_directory_is_private_and_an_old_one_is_left_alone() {
    for (before, after) in [(None, 0o700), (Some(0o755), 0o755)] {
        let plan = write_plan(Some(&account()), b"pem");
        let dir = b"/home/ada/.kyc".to_vec();
        let mut mode: Option<u32> = before;
        for step in &plan.steps {
            match step {
                FsStep::CreateDirAll { path, new_mode } if *path == dir => {
                    mode = mode.or(*new_mode);
                }
                FsStep::SetMode { path, mode: set } if *path == dir => mode = Some(*set),
                _ => {}
            }
        }
        assert_eq!(mode, Some(after));
    }
}

/// Files as a map from path to bytes, under the steps of a plan.
#[test]
fn what_was_written_is_read() {
    for who in [Some(account()), None] {
        let plan = write_plan(who.as_ref(), b"fresh");
        let mut files = std::collections::HashMap::new();
        files.insert(plan.path.clone(), b"stale".to_vec());
        for step in &plan.steps {
            let held = &files[&plan.path];
            assert!(held == b"stale" || held == b"fresh");
            match step {
                FsStep::WriteFile { path, bytes } => {
                    files.insert(path.clone(), bytes.clone());
                }
                FsStep::Rename { from, to } => {
                    let bytes = files.remove(from).unwrap();
                    files.insert(to.clone(), bytes);
                }
                _ => {}
            }
        }
        assert_eq!(files.len(), 1);
        let home: &[u8] = b"/root";
        let (_, result) = read_for(who.as_ref(), Some(home), |path| match files.get(path) {
            Some(bytes) => FileReply::Bytes(bytes.clone()),
            None => FileReply::NotFound,
        });
        assert_eq!(result, Ok(Some(b"fresh".to_vec())));
    }
}
