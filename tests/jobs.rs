use std::cell::Cell;

use jenkins_paths::error::{ClientError, ExpectedType, FetchError};
use jenkins_paths::job::{BallColor, Browser, Job, Property, ShortJob, SCM};
use jenkins_paths::json::{Json, Member};
use jenkins_paths::maven::{MavenArtifactRecord, ShortMavenArtifactRecord};

const BASE: &str = "http://h";

fn s(v: &str) -> Json {
    Json::Str(v.to_string())
}

fn obj(members: Vec<(&str, Json)>) -> Json {
    Json::Object(
        members
            .into_iter()
            .map(|(k, v)| Member { key: k.to_string(), value: v })
            .collect(),
    )
}

fn common_members(class: &str, name: &str, url: &str, buildable: bool) -> Vec<(&'static str, Json)> {
    vec![
        ("_class", s(class)),
        ("name", s(name)),
        ("displayName", s(name)),
        ("fullName", s(name)),
        ("description", Json::Null),
        ("url", s(url)),
        ("color", s("blue")),
        ("buildable", Json::Bool(buildable)),
        ("inQueue", Json::Bool(false)),
        ("nextBuildNumber", Json::Int(3)),
        ("lastBuild", obj(vec![("url", s("http://h/job/demo/2/")), ("number", Json::Int(2))])),
        (
            "builds",
            Json::Array(vec![
                obj(vec![("url", s("http://h/job/demo/2/")), ("number", Json::Int(2))]),
                obj(vec![("url", s("http://h/job/demo/1/")), ("number", Json::Int(1))]),
            ]),
        ),
        (
            "healthReport",
            Json::Array(vec![obj(vec![
                ("description", s("Build stability")),
                ("iconClassName", s("icon-health-80plus")),
                ("iconUrl", s("health-80plus.png")),
                ("score", Json::Int(100)),
            ])]),
        ),
        (
            "property",
            Json::Array(vec![
                obj(vec![("_class", s("jenkins.model.BuildDiscarderProperty"))]),
                obj(vec![("_class", s("plugins.acme.Other"))]),
            ]),
        ),
    ]
}

fn free_style_json(buildable: bool) -> Json {
    let mut m = common_members("hudson.model.FreeStyleProject", "demo", "http://h/job/demo/", buildable);
    m.push(("concurrentBuild", Json::Bool(false)));
    m.push(("scm", obj(vec![("_class", s("hudson.scm.NullSCM")), ("browser", Json::Null)])));
    m.push((
        "upstreamProjects",
        Json::Array(vec![obj(vec![("name", s("up")), ("url", s("http://h/job/up/")), ("color", s("red_anime"))])]),
    ));
    m.push(("downstreamProjects", Json::Array(vec![])));
    m.push(("labelExpression", Json::Null));
    obj(m)
}

#[test]
fn free_style_project_decodes_and_is_buildable() {
    let job = Job::decode(&free_style_json(true)).unwrap();
    assert!(matches!(job, Job::FreeStyleProject { .. }));
    assert_eq!(job.buildable().unwrap(), true);
    assert_eq!(job.name().unwrap(), "demo");
    assert_eq!(job.url().unwrap(), "http://h/job/demo/");
    assert_eq!(job.builds().unwrap().len(), 2);
    assert_eq!(job.builds().unwrap()[1].number, 1);
    assert_eq!(job.last_build().unwrap().as_ref().unwrap().number, 2);
    assert_eq!(job.health_report().unwrap()[0].score, 100);
    if let Job::FreeStyleProject { common, details } = &job {
        assert!(matches!(common.property[0], Property::BuildDiscarderProperty));
        assert!(matches!(&common.property[1], Property::Unknown { class: Some(c) } if c == "plugins.acme.Other"));
        assert!(matches!(details.scm, SCM::NullSCM { browser: None }));
        assert_eq!(details.upstream_projects[0].color, BallColor::RedAnime);
        assert_eq!(common.description, None);
    }
    assert_eq!(Job::decode(&free_style_json(false)).unwrap().buildable().unwrap(), false);
}

#[test]
fn unknown_class_decodes_to_unknown_and_accessors_fail() {
    let j = obj(vec![("_class", s("some.unknown.Type")), ("name", s("x")), ("url", s("http://h/job/x/"))]);
    let job = Job::decode(&j).unwrap();
    assert!(matches!(&job, Job::Unknown { class: Some(c) } if c == "some.unknown.Type"));
    match job.buildable() {
        Err(ClientError::InvalidObjectType { object_type, field, variant_name }) => {
            assert_eq!(object_type, ExpectedType::Job);
            assert_eq!(field, "buildable");
            assert_eq!(variant_name.as_deref(), Some("some.unknown.Type"));
        }
        other => panic!("unexpected {:?}", other),
    }
}

#[test]
fn plugin_job_class_is_kept_and_name_fails_naming_it() {
    let j = obj(vec![("_class", s("plugins.acme.CustomJob")), ("name", Json::Int(5))]);
    let job = Job::decode(&j).unwrap();
    assert!(matches!(&job, Job::Unknown { class: Some(c) } if c == "plugins.acme.CustomJob"));
    match job.name() {
        Err(ClientError::InvalidObjectType { field, variant_name, .. }) => {
            assert_eq!(field, "name");
            assert_eq!(variant_name.as_deref(), Some("plugins.acme.CustomJob"));
        }
        other => panic!("unexpected {:?}", other),
    }
}

#[test]
fn missing_class_decodes_to_unknown_without_class() {
    let job = Job::decode(&obj(vec![("name", s("x"))])).unwrap();
    assert!(matches!(job, Job::Unknown { class: None }));
    assert!(matches!(job.url(), Err(ClientError::InvalidObjectType { variant_name: None, .. })));
}

#[test]
fn known_class_with_missing_member_is_a_decode_error() {
    let j = obj(vec![("_class", s("hudson.model.FreeStyleProject")), ("name", s("demo"))]);
    let e = Job::decode(&j).unwrap_err();
    assert_eq!(e.field, "displayName");
}

#[test]
fn unknown_scm_inside_known_job_is_kept() {
    let mut m = common_members("hudson.maven.MavenModule", "m", "http://h/job/m/", true);
    m.push(("concurrentBuild", Json::Bool(true)));
    m.push(("scm", obj(vec![("_class", s("hudson.plugins.svn.Subversion"))])));
    m.push(("upstreamProjects", Json::Array(vec![])));
    m.push(("downstreamProjects", Json::Array(vec![])));
    m.push(("labelExpression", s("linux")));
    let job = Job::decode(&obj(m)).unwrap();
    match job {
        Job::MavenModule { details, .. } => {
            assert!(matches!(&details.scm, SCM::Unknown { class: Some(c) } if c == "hudson.plugins.svn.Subversion"));
            assert_eq!(details.label_expression.as_deref(), Some("linux"));
        }
        other => panic!("unexpected {:?}", other),
    }
}

#[test]
fn git_scm_reads_browser_and_merge_options() {
    let j = obj(vec![
        ("_class", s("hudson.plugins.git.GitSCM")),
        ("browser", obj(vec![("_class", s("hudson.plugins.git.browser.GithubWeb"))])),
        (
            "mergeOptions",
            obj(vec![
                ("mergeStrategy", s("default")),
                ("fastForwardMode", s("FF")),
                ("mergeTarget", Json::Null),
                ("remoteBranchName", s("origin")),
            ]),
        ),
    ]);
    match SCM::decode(&j).unwrap() {
        SCM::GitSCM { browser, merge_options } => {
            assert!(matches!(browser, Some(Browser::GithubWeb)));
            assert_eq!(merge_options.fast_forward_mode, "FF");
            assert_eq!(merge_options.merge_target, None);
            assert_eq!(merge_options.remote_branch_name.as_deref(), Some("origin"));
        }
        other => panic!("unexpected {:?}", other),
    }
    let no_options = obj(vec![("_class", s("hudson.plugins.git.GitSCM"))]);
    assert_eq!(SCM::decode(&no_options).unwrap_err().field, "mergeOptions");
}

#[test]
fn ball_colors_read_their_wire_names() {
    assert_eq!(BallColor::from_name("notbuilt"), Some(BallColor::NotBuilt));
    assert_eq!(BallColor::from_name("notbuilt_anime"), Some(BallColor::NotBuiltAnime));
    assert_eq!(BallColor::from_name("aborted_anime"), Some(BallColor::AbortedAnime));
    assert_eq!(BallColor::from_name("purple"), None);
    assert_eq!(BallColor::default(), BallColor::NotBuilt);
}

#[test]
fn queue_link_resolved_as_job_fails_without_fetching() {
    let short = ShortJob { name: "q".to_string(), url: "http://h/queue/".to_string(), color: BallColor::Blue };
    let calls = Cell::new(0);
    let r = short.get_full_job(BASE, |_u: Vec<u8>| -> Result<Json, ()> {
        calls.set(calls.get() + 1);
        Ok(Json::Null)
    });
    match r {
        Err(FetchError::Client(ClientError::InvalidUrl { url, expected })) => {
            assert_eq!(url, "http://h/queue/");
            assert_eq!(expected, ExpectedType::Job);
        }
        other => panic!("unexpected {:?}", other),
    }
    assert_eq!(calls.get(), 0);
}

#[test]
fn job_link_fetches_the_job_url_and_decodes() {
    let short = ShortJob { name: "demo".to_string(), url: "http://h/job/demo/".to_string(), color: BallColor::Blue };
    let seen = Cell::new(Vec::new());
    let job = short
        .get_full_job(BASE, |u: Vec<u8>| -> Result<Json, ()> {
            seen.set(u);
            Ok(free_style_json(true))
        })
        .unwrap();
    assert_eq!(seen.take(), b"http://h/job/demo".to_vec());
    assert_eq!(job.name().unwrap(), "demo");
    let failed = short.get_full_job(BASE, |_u: Vec<u8>| -> Result<Json, &str> { Err("refused") });
    assert!(matches!(failed, Err(FetchError::Transport("refused"))));
    let bad = short.get_full_job(BASE, |_u: Vec<u8>| -> Result<Json, ()> {
        Ok(obj(vec![("_class", s("hudson.model.ExternalJob"))]))
    });
    assert!(matches!(bad, Err(FetchError::Decode(_))));
}

#[test]
fn actions_post_to_the_job_action_urls() {
    let job = Job::decode(&free_style_json(true)).unwrap();
    let seen = Cell::new(Vec::new());
    job.enable(BASE, |u: Vec<u8>| -> Result<(), ()> {
        seen.set(u);
        Ok(())
    })
    .unwrap();
    assert_eq!(seen.take(), b"http://h/job/demo/enable".to_vec());
    job.disable(BASE, |u: Vec<u8>| -> Result<(), ()> {
        seen.set(u);
        Ok(())
    })
    .unwrap();
    assert_eq!(seen.take(), b"http://h/job/demo/disable".to_vec());
    job.poll_scm(BASE, |u: Vec<u8>| -> Result<(), ()> {
        seen.set(u);
        Ok(())
    })
    .unwrap();
    assert_eq!(seen.take(), b"http://h/job/demo/polling".to_vec());
    job.add_to_view(BASE, "test view", |u: Vec<u8>| -> Result<(), ()> {
        seen.set(u);
        Ok(())
    })
    .unwrap();
    assert_eq!(seen.take(), b"http://h/view/test%20view/addJobToView?name=demo".to_vec());
    job.remove_from_view(BASE, "test view", |u: Vec<u8>| -> Result<(), ()> {
        seen.set(u);
        Ok(())
    })
    .unwrap();
    assert_eq!(seen.take(), b"http://h/view/test%20view/removeJobFromView?name=demo".to_vec());
}

#[test]
fn actions_refuse_sub_jobs_and_unknown_jobs() {
    let mut m = common_members("hudson.matrix.MatrixConfiguration", "c", "http://h/job/m/job/c/", true);
    m.push(("concurrentBuild", Json::Bool(false)));
    m.push(("scm", obj(vec![("_class", s("hudson.scm.NullSCM"))])));
    m.push(("upstreamProjects", Json::Array(vec![])));
    m.push(("downstreamProjects", Json::Array(vec![])));
    let sub = Job::decode(&obj(m)).unwrap();
    let calls = Cell::new(0);
    let r = sub.enable(BASE, |_u: Vec<u8>| -> Result<(), ()> {
        calls.set(calls.get() + 1);
        Ok(())
    });
    assert!(matches!(r, Err(FetchError::Client(ClientError::InvalidUrl { expected: ExpectedType::Job, .. }))));
    let unknown = Job::decode(&obj(vec![("_class", s("x.Y"))])).unwrap();
    let r = unknown.poll_scm(BASE, |_u: Vec<u8>| -> Result<(), ()> {
        calls.set(calls.get() + 1);
        Ok(())
    });
    assert!(matches!(r, Err(FetchError::Client(ClientError::InvalidObjectType { .. }))));
    assert_eq!(calls.get(), 0);
}

fn artifact(id: &str) -> Json {
    obj(vec![
        ("artifactId", s(id)),
        ("canonicalName", s("a-1.0.jar")),
        ("classifier", Json::Null),
        ("fileName", s("a-1.0.jar")),
        ("groupId", s("g")),
        ("md5sum", s("0")),
        ("type", s("jar")),
        ("version", s("1.0")),
    ])
}

#[test]
fn artifact_record_link_checks_kind_and_decodes() {
    let short = ShortMavenArtifactRecord { url: "http://h/job/maven%20job/1/mavenArtifacts/".to_string() };
    let seen = Cell::new(Vec::new());
    let record: MavenArtifactRecord = short
        .get_full_artifact_record(BASE, |u: Vec<u8>| -> Result<Json, ()> {
            seen.set(u);
            Ok(obj(vec![
                ("url", s("http://h/job/maven%20job/1/mavenArtifacts/")),
                ("attachedArtifacts", Json::Array(vec![artifact("att")])),
                ("mainArtifact", artifact("main")),
                ("parent", obj(vec![("url", s("http://h/job/maven%20job/1/")), ("number", Json::Int(1))])),
                ("pomArtifact", artifact("pom")),
            ]))
        })
        .unwrap();
    assert_eq!(seen.take(), b"http://h/job/maven%20job/1/mavenArtifacts".to_vec());
    assert_eq!(record.main_artifact.artifact_id, "main");
    assert_eq!(record.attached_artifacts[0].artifact_type, "jar");
    assert_eq!(record.parent.number, 1);
    let wrong = ShortMavenArtifactRecord { url: "http://h/job/maven%20job/1/".to_string() };
    let r = wrong.get_full_artifact_record(BASE, |_u: Vec<u8>| -> Result<Json, ()> { Ok(Json::Null) });
    assert!(matches!(
        r,
        Err(FetchError::Client(ClientError::InvalidUrl { expected: ExpectedType::MavenArtifactRecord, .. }))
    ));
    assert_eq!(ShortMavenArtifactRecord::default().url, "");
}
