use wie_jni::app_file::{archive_emulator, classify_app_file, jar_emulator, AppFile, EmulatorKind, LoadError};

#[test]
fn zip_files_are_archives() {
    assert_eq!(classify_app_file("game.zip"), Ok(AppFile::Archive));
    assert_eq!(classify_app_file("game.jar.zip"), Ok(AppFile::Archive));
}

#[test]
fn jar_files_are_named_after_the_file() {
    assert_eq!(classify_app_file("Heroes Lore.jar"), Ok(AppFile::Jar { name: "Heroes Lore".to_string() }));
    assert_eq!(classify_app_file("game.jar.jar"), Ok(AppFile::Jar { name: "game".to_string() }));
    assert_eq!(classify_app_file("x.zip.jar"), Ok(AppFile::Jar { name: "x.zip".to_string() }));
    assert_eq!(classify_app_file(".jar"), Ok(AppFile::Jar { name: "".to_string() }));
}

#[test]
fn other_files_are_refused() {
    assert_eq!(
        classify_app_file("game.JAR"),
        Err(LoadError::UnsupportedFileType("game.JAR".to_string()))
    );
    assert_eq!(classify_app_file(""), Err(LoadError::UnsupportedFileType("".to_string())));
    let e = classify_app_file("readme.txt").unwrap_err();
    assert_eq!(e.message(), "Unsupported file type: readme.txt (expected .zip or .jar)");
}

#[test]
fn archives_go_to_the_first_platform_that_takes_them() {
    assert_eq!(archive_emulator(true, true, true), Ok(EmulatorKind::Ktf));
    assert_eq!(archive_emulator(false, true, true), Ok(EmulatorKind::Lgt));
    assert_eq!(archive_emulator(false, false, true), Ok(EmulatorKind::Skt));
    let e = archive_emulator(false, false, false).unwrap_err();
    assert_eq!(e, LoadError::UnknownArchiveFormat);
    assert_eq!(e.message(), "Unknown archive format");
}

#[test]
fn jars_fall_back_to_j2me() {
    assert_eq!(jar_emulator(true, false, false), EmulatorKind::Ktf);
    assert_eq!(jar_emulator(false, true, true), EmulatorKind::Lgt);
    assert_eq!(jar_emulator(false, false, true), EmulatorKind::Skt);
    assert_eq!(jar_emulator(false, false, false), EmulatorKind::J2me);
}
