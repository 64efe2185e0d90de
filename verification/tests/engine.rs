use std::collections::BTreeMap;

use video_plucker::engine::{
    asset_name, begin_update, continue_update, download_file_name, download_url, engine_file_name,
    updated_this_session, ytdlp_command, EngineProgram, EngineSession, Target, UpdateAction,
    UpdateStep,
};

const LINUX: Target = Target { windows: false, macos: false, unix: true, aarch64: false };
const LINUX_ARM: Target = Target { windows: false, macos: false, unix: true, aarch64: true };
const MACOS: Target = Target { windows: false, macos: true, unix: true, aarch64: true };
const WINDOWS: Target = Target { windows: true, macos: false, unix: false, aarch64: true };

#[test]
fn names_of_files_and_assets() {
    assert_eq!(engine_file_name(WINDOWS), "yt-dlp.exe");
    assert_eq!(engine_file_name(MACOS), "yt-dlp");
    assert_eq!(download_file_name(LINUX), "yt-dlp.download");
    assert_eq!(download_file_name(WINDOWS), "yt-dlp.exe.download");
    assert_eq!(asset_name(WINDOWS), "yt-dlp.exe");
    assert_eq!(asset_name(MACOS), "yt-dlp_macos");
    assert_eq!(asset_name(LINUX_ARM), "yt-dlp_linux_aarch64");
    assert_eq!(asset_name(LINUX), "yt-dlp_linux");
    assert_eq!(
        download_url(LINUX),
        "https://github.com/yt-dlp/yt-dlp/releases/latest/download/yt-dlp_linux"
    );
}

#[test]
fn downloaded_engine_is_preferred() {
    let command = ytdlp_command(true, Some("/res/yt-dlp-plugins"));
    assert_eq!(command.program, EngineProgram::Downloaded);
    assert_eq!(command.args, ["--plugin-dirs", "/res/yt-dlp-plugins"]);
    let bundled = ytdlp_command(false, None);
    assert_eq!(bundled.program, EngineProgram::Bundled);
    assert!(bundled.args.is_empty());
}

fn steps(session: &mut EngineSession, target: Target, failing: Option<UpdateStep>) -> (Vec<UpdateStep>, Option<String>) {
    let mut seen = Vec::new();
    let mut action = begin_update(session);
    loop {
        match action {
            UpdateAction::Perform(step) => {
                seen.push(step);
                let outcome = if failing == Some(step) { Err("why".to_string()) } else { Ok(()) };
                action = continue_update(session, step, outcome, target);
            }
            UpdateAction::Done => return (seen, None),
            UpdateAction::Failed(message) => return (seen, Some(message)),
        }
    }
}

#[test]
fn update_performs_its_steps_in_order() {
    let mut session = EngineSession::new();
    assert!(!updated_this_session(&session));
    let (seen, failure) = steps(&mut session, LINUX, None);
    assert_eq!(
        seen,
        [
            UpdateStep::Download,
            UpdateStep::FindDataDir,
            UpdateStep::MakeDir,
            UpdateStep::WriteFile,
            UpdateStep::SetPermissions,
            UpdateStep::RemoveOld,
            UpdateStep::Install,
        ]
    );
    assert_eq!(failure, None);
    assert!(updated_this_session(&session));
}

#[test]
fn permissions_are_set_on_unix_only() {
    let mut session = EngineSession::new();
    let (seen, failure) = steps(&mut session, WINDOWS, None);
    assert!(!seen.contains(&UpdateStep::SetPermissions));
    assert_eq!(seen.len(), 6);
    assert_eq!(failure, None);
}

#[test]
fn successful_update_is_remembered() {
    let mut session = EngineSession::new();
    steps(&mut session, LINUX, None);
    let (seen, failure) = steps(&mut session, LINUX, Some(UpdateStep::Download));
    assert!(seen.is_empty());
    assert_eq!(failure, None);
}

#[test]
fn failed_steps_are_reported() {
    for (step, message) in [
        (UpdateStep::Download, "engine download failed: why"),
        (UpdateStep::FindDataDir, "app data dir: why"),
        (UpdateStep::MakeDir, "engine dir: why"),
        (UpdateStep::WriteFile, "engine write: why"),
        (UpdateStep::Install, "engine install: why"),
    ] {
        let mut session = EngineSession::new();
        let (seen, failure) = steps(&mut session, LINUX, Some(step));
        assert_eq!(seen.last(), Some(&step));
        assert_eq!(failure.as_deref(), Some(message));
        assert!(!updated_this_session(&session));
    }
}

#[test]
fn some_steps_may_fail() {
    for step in [UpdateStep::SetPermissions, UpdateStep::RemoveOld] {
        let mut session = EngineSession::new();
        let (_, failure) = steps(&mut session, LINUX, Some(step));
        assert_eq!(failure, None);
        assert!(updated_this_session(&session));
    }
}

/// Runs an update on a directory, in which `failing` fails, and tells if it is done.
fn update(
    session: &mut EngineSession,
    target: Target,
    files: &mut BTreeMap<String, Vec<u8>>,
    data: &[u8],
    failing: Option<UpdateStep>,
) -> bool {
    let engine = engine_file_name(target).to_string();
    let temporary = download_file_name(target);
    let mut action = begin_update(session);
    loop {
        let step = match action {
            UpdateAction::Perform(step) => step,
            UpdateAction::Done => return true,
            UpdateAction::Failed(_) => return false,
        };
        let outcome = if failing == Some(step) {
            Err("why".to_string())
        } else {
            match step {
                UpdateStep::WriteFile => {
                    files.insert(temporary.clone(), data.to_vec());
                    Ok(())
                }
                UpdateStep::RemoveOld => {
                    files.remove(&engine).map(|_| ()).ok_or("no such file".to_string())
                }
                UpdateStep::Install => {
                    let bytes = files.remove(&temporary).unwrap();
                    files.insert(engine.clone(), bytes);
                    Ok(())
                }
                _ => Ok(()),
            }
        };
        action = continue_update(session, step, outcome, target);
    }
}

#[test]
fn finished_update_leaves_the_download_as_engine() {
    for old in [None, Some(b"old".to_vec())] {
        for failing in [None, Some(UpdateStep::SetPermissions), Some(UpdateStep::RemoveOld)] {
            let mut session = EngineSession::new();
            let mut files = BTreeMap::new();
            files.insert("other".to_string(), b"kept".to_vec());
            files.insert("yt-dlp.download".to_string(), b"half".to_vec());
            if let Some(bytes) = &old {
                files.insert("yt-dlp".to_string(), bytes.clone());
            }
            assert!(update(&mut session, LINUX, &mut files, b"new", failing));
            let expected = BTreeMap::from([
                ("other".to_string(), b"kept".to_vec()),
                ("yt-dlp".to_string(), b"new".to_vec()),
            ]);
            assert_eq!(files, expected);
            let there = files.contains_key(engine_file_name(LINUX));
            assert_eq!(ytdlp_command(there, None).program, EngineProgram::Downloaded);
            // nothing is downloaded again
            assert!(update(&mut session, LINUX, &mut files, b"newer", None));
            assert_eq!(files, expected);
        }
    }
}

#[test]
fn failed_update_keeps_the_engine() {
    for failing in [
        UpdateStep::Download,
        UpdateStep::FindDataDir,
        UpdateStep::MakeDir,
        UpdateStep::WriteFile,
    ] {
        let mut session = EngineSession::new();
        let mut files = BTreeMap::from([("yt-dlp".to_string(), b"old".to_vec())]);
        assert!(!update(&mut session, LINUX, &mut files, b"new", Some(failing)));
        assert_eq!(files.get("yt-dlp"), Some(&b"old".to_vec()));
        assert!(!updated_this_session(&session));
    }
}
