use vastatrix::jar::class_entry_name;
use vastatrix::jar::meta::JarMeta;
use vastatrix::vastatrick::slashed_of;
use vastatrix::HowLaunch;
use vastatrix::LaunchOptions;

#[test]
fn the_manifest_names_the_main_class() {
    let meta = JarMeta::from_manifest("Manifest-Version: 1.0\nMain-Class: com.example.Main\n");
    assert_eq!(meta.main_class, Some("com.example.Main".to_string()));
}

#[test]
fn a_manifest_without_a_main_class_names_none() {
    assert_eq!(JarMeta::from_manifest("Manifest-Version: 1.0\n").main_class, None);
    assert_eq!(JarMeta::from_manifest("").main_class, None);
    assert_eq!(JarMeta::from_manifest("Main-Class\n").main_class, None);
    assert_eq!(JarMeta::from_manifest("X-Main-Class: a.B\n").main_class, None);
}

#[test]
fn the_last_main_class_line_decides() {
    let meta = JarMeta::from_manifest("Main-Class: a.First\nOther: x\nMain-Class: b.Second");
    assert_eq!(meta.main_class, Some("b.Second".to_string()));
}

#[test]
fn blanks_around_the_name_are_cut_off() {
    let meta = JarMeta::from_manifest("Main-Class: \t a.B \r\nNext: y\n");
    assert_eq!(meta.main_class, Some("a.B".to_string()));
    assert_eq!(JarMeta::from_manifest("Main-Class:\n").main_class, Some(String::new()));
}

#[test]
fn the_name_ends_at_a_second_colon() {
    let meta = JarMeta::from_manifest("Main-Class: a.B : c\n");
    assert_eq!(meta.main_class, Some("a.B".to_string()));
}

#[test]
fn an_entry_that_ends_in_class_holds_a_class() {
    assert_eq!(class_entry_name("com/example/Main.class"), Some("com/example/Main".to_string()));
    assert_eq!(class_entry_name(".class"), Some(String::new()));
    assert_eq!(class_entry_name("META-INF/MANIFEST.MF"), None);
    assert_eq!(class_entry_name("Main.clas"), None);
    assert_eq!(class_entry_name("class"), None);
    assert_eq!(class_entry_name("Main.class.txt"), None);
}

#[test]
fn dots_become_slashes() {
    assert_eq!(slashed_of("com.example.Main"), "com/example/Main");
    assert_eq!(slashed_of("Main"), "Main");
    assert_eq!(slashed_of("a/b.c"), "a/b/c");
}

#[test]
fn launch_options_keep_how_to_launch() {
    let options = LaunchOptions::new(HowLaunch::JarFile("program.jar".to_string()));
    match options.how() {
        HowLaunch::JarFile(path) => assert_eq!(path, "program.jar"),
    }
}
