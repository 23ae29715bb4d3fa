use jenkins_paths::encoding::{decode_name, encode_name};
use jenkins_paths::path::{BuildSelector, Name, Path};

const BASE: &str = "http://h";

fn name(s: &str) -> Name {
    Name::new(s)
}

fn url(p: &Path) -> String {
    String::from_utf8(p.render(BASE)).unwrap()
}

#[test]
fn nested_console_text_url_parses_and_renders_back() {
    let u = "http://h/job/a/job/b/7/consoleText";
    let p = Path::parse(u, BASE).unwrap();
    assert_eq!(
        p,
        Path::ConsoleText {
            job_name: name("a"),
            configuration: vec![name("b")],
            number: BuildSelector::Number(7),
        }
    );
    assert_eq!(url(&p), u);
}

#[test]
fn console_text_and_build_parse_to_different_paths() {
    let console = Path::parse("http://h/job/a/7/consoleText", BASE).unwrap();
    let build = Path::parse("http://h/job/a/7", BASE).unwrap();
    assert!(matches!(console, Path::ConsoleText { .. }));
    assert!(matches!(build, Path::Build { .. }));
    assert_ne!(console, build);
}

#[test]
fn every_kind_of_path_round_trips() {
    let paths = vec![
        Path::Home,
        Path::Job { name: name("normal job"), configuration: vec![] },
        Path::Job { name: name("matrix job"), configuration: vec![name("label=a b")] },
        Path::JobEnable { name: name("j") },
        Path::JobDisable { name: name("j") },
        Path::PollSCMJob { name: name("git triggered") },
        Path::View { name: name("view disabled") },
        Path::AddJobToView { job_name: name("pipeline job"), view_name: name("test view") },
        Path::RemoveJobFromView { job_name: name("a?b"), view_name: name("v/w") },
        Path::Build { job_name: name("a"), configuration: vec![], number: BuildSelector::LastStableBuild },
        Path::Build { job_name: name("a"), configuration: vec![], number: BuildSelector::Number(0) },
        Path::ConsoleText { job_name: name("a"), configuration: vec![], number: BuildSelector::FirstBuild },
        Path::MavenArtifactRecord { job_name: name("maven job"), configuration: vec![], number: BuildSelector::Number(12) },
        Path::Queue,
        Path::QueueItem { id: 18446744073709551615 },
    ];
    for p in paths {
        let u = url(&p);
        assert_eq!(Path::parse(&u, BASE), Some(p.clone()), "{}", u);
    }
}

#[test]
fn rendered_urls_have_the_documented_shape() {
    assert_eq!(url(&Path::Home), "http://h/");
    assert_eq!(url(&Path::Job { name: name("normal job"), configuration: vec![] }), "http://h/job/normal%20job");
    assert_eq!(url(&Path::JobEnable { name: name("j") }), "http://h/job/j/enable");
    assert_eq!(url(&Path::PollSCMJob { name: name("j") }), "http://h/job/j/polling");
    assert_eq!(
        url(&Path::AddJobToView { job_name: name("p j"), view_name: name("v") }),
        "http://h/view/v/addJobToView?name=p%20j"
    );
    assert_eq!(
        url(&Path::Build { job_name: name("a"), configuration: vec![], number: BuildSelector::LastBuild }),
        "http://h/job/a/lastBuild"
    );
    assert_eq!(url(&Path::QueueItem { id: 42 }), "http://h/queue/item/42");
}

#[test]
fn server_urls_with_trailing_slash_and_query_parse() {
    assert_eq!(
        Path::parse("http://h/job/normal%20job/", BASE),
        Some(Path::Job { name: name("normal job"), configuration: vec![] })
    );
    assert_eq!(
        Path::parse("http://h/job/x/3/?depth=1", BASE),
        Some(Path::Build { job_name: name("x"), configuration: vec![], number: BuildSelector::Number(3) })
    );
    assert_eq!(Path::parse("http://h/", BASE), Some(Path::Home));
    assert_eq!(Path::parse("http://h", BASE), Some(Path::Home));
    assert_eq!(Path::parse("/queue/item/9/", BASE), Some(Path::QueueItem { id: 9 }));
    assert_eq!(Path::parse("view/v", BASE), Some(Path::View { name: name("v") }));
}

#[test]
fn unrecognized_urls_give_none() {
    assert_eq!(Path::parse("http://h/nothing/here", BASE), None);
    assert_eq!(Path::parse("http://h/job/a/job/b/enable", BASE), None);
    assert_eq!(Path::parse("http://h/job/a/seven", BASE), None);
    assert_eq!(Path::parse("http://h/queue/item/x", BASE), None);
    assert_eq!(Path::parse("http://h/queue/item/18446744073709551616", BASE), None);
    assert_eq!(Path::parse("http://h/view/v/addJobToView", BASE), None);
    assert_eq!(Path::parse("http://other/job/a", BASE), None);
}

#[test]
fn build_aliases_parse() {
    let cases = vec![
        ("lastBuild", BuildSelector::LastBuild),
        ("lastStableBuild", BuildSelector::LastStableBuild),
        ("lastSuccessfulBuild", BuildSelector::LastSuccessfulBuild),
        ("lastFailedBuild", BuildSelector::LastFailedBuild),
        ("lastUnstableBuild", BuildSelector::LastUnstableBuild),
        ("lastUnsuccessfulBuild", BuildSelector::LastUnsuccessfulBuild),
        ("lastCompletedBuild", BuildSelector::LastCompletedBuild),
        ("firstBuild", BuildSelector::FirstBuild),
    ];
    for (alias, sel) in cases {
        let u = format!("http://h/job/a/{}", alias);
        assert_eq!(
            Path::parse(&u, BASE),
            Some(Path::Build { job_name: name("a"), configuration: vec![], number: sel })
        );
    }
}

#[test]
fn name_encoding_round_trips_spaces_and_non_ascii() {
    let display = "my job é/ü?x";
    let encoded = encode_name(display.as_bytes());
    assert_eq!(String::from_utf8(encoded.clone()).unwrap(), "my%20job%20%C3%A9%2F%C3%BC%3Fx");
    assert_eq!(decode_name(&encoded), display.as_bytes().to_vec());
}

#[test]
fn decoding_keeps_stray_percent_and_reads_lower_case_hex() {
    assert_eq!(decode_name(b"a%2fb%zz%4"), b"a/b%zz%4".to_vec());
    assert_eq!(Name::from_encoded("a%20b"), name("a b"));
    assert_eq!(name("a b").encoded(), b"a%20b".to_vec());
}

