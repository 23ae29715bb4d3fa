//! Artifacts that maven builds record.

use vstd::prelude::*;
use vstd::string::StringSliceAdditionalSpecFns;
use crate::error::{ClientError, ExpectedType, FetchError};
use crate::job::{short_build_is, short_build_ok, url_bytes, ShortBuild};
use crate::json::{
    get_member, field_error, items_of, member, opt_str_of, opt_string_view, read_items,
    read_opt_string, read_string, str_of, DecodeError, Json,
};
use crate::path::{parse, render, Path};

verus! {

/// An artifact produced by a build.
#[derive(Debug, Clone)]
pub struct Artifact {
    pub artifact_id: String,
    pub canonical_name: String,
    /// sources, javadoc, ...
    pub classifier: Option<String>,
    pub file_name: String,
    pub group_id: String,
    pub md5sum: String,
    /// jar, war, javadoc, java-source, ...
    pub artifact_type: String,
    pub version: String,
}

pub open spec fn artifact_ok(j: Json) -> bool {
    &&& str_of(member(j, "artifactId"@)) is Some
    &&& str_of(member(j, "canonicalName"@)) is Some
    &&& opt_str_of(member(j, "classifier"@)) is Some
    &&& str_of(member(j, "fileName"@)) is Some
    &&& str_of(member(j, "groupId"@)) is Some
    &&& str_of(member(j, "md5sum"@)) is Some
    &&& str_of(member(j, "type"@)) is Some
    &&& str_of(member(j, "version"@)) is Some
}

pub open spec fn artifact_is(j: Json, a: Artifact) -> bool {
    &&& artifact_ok(j)
    &&& a.artifact_id@ == str_of(member(j, "artifactId"@))->0
    &&& a.canonical_name@ == str_of(member(j, "canonicalName"@))->0
    &&& opt_string_view(a.classifier) == opt_str_of(member(j, "classifier"@))->0
    &&& a.file_name@ == str_of(member(j, "fileName"@))->0
    &&& a.group_id@ == str_of(member(j, "groupId"@))->0
    &&& a.md5sum@ == str_of(member(j, "md5sum"@))->0
    &&& a.artifact_type@ == str_of(member(j, "type"@))->0
    &&& a.version@ == str_of(member(j, "version"@))->0
}

impl Artifact {
    pub fn decode(j: &Json) -> (r: Result<Artifact, DecodeError>)
        ensures
            r is Ok <==> artifact_ok(*j),
            r is Ok ==> artifact_is(*j, r->Ok_0),
    {
        let artifact_id = read_string(j, "artifactId")?;
        let canonical_name = read_string(j, "canonicalName")?;
        let classifier = read_opt_string(j, "classifier")?;
        let file_name = read_string(j, "fileName")?;
        let group_id = read_string(j, "groupId")?;
        let md5sum = read_string(j, "md5sum")?;
        let artifact_type = read_string(j, "type")?;
        let version = read_string(j, "version")?;
        Ok(
            Artifact {
                artifact_id,
                canonical_name,
                classifier,
                file_name,
                group_id,
                md5sum,
                artifact_type,
                version,
            },
        )
    }
}

/// Link to the artifact record of a maven build.
#[derive(Debug, Clone)]
pub struct ShortMavenArtifactRecord {
    pub url: String,
}

impl Default for ShortMavenArtifactRecord {
    fn default() -> (r: Self)
        ensures
            r.url@.len() == 0,
    {
        ShortMavenArtifactRecord { url: String::new() }
    }
}

/// The artifacts that a maven build produced.
#[derive(Debug, Clone)]
pub struct MavenArtifactRecord {
    pub url: String,
    pub attached_artifacts: Vec<Artifact>,
    pub main_artifact: Artifact,
    pub parent: ShortBuild,
    pub pom_artifact: Artifact,
}

pub open spec fn artifacts_ok(v: Option<Json>) -> bool {
    &&& items_of(v) is Some
    &&& forall|i: int| 0 <= i < items_of(v)->0.len() ==> artifact_ok(#[trigger] items_of(v)->0[i])
}

pub open spec fn artifacts_are(v: Option<Json>, a: Seq<Artifact>) -> bool {
    &&& artifacts_ok(v)
    &&& a.len() == items_of(v)->0.len()
    &&& forall|i: int| 0 <= i < a.len() ==> artifact_is(#[trigger] items_of(v)->0[i], a[i])
}

pub open spec fn record_ok(j: Json) -> bool {
    &&& str_of(member(j, "url"@)) is Some
    &&& artifacts_ok(member(j, "attachedArtifacts"@))
    &&& member(j, "mainArtifact"@) is Some && artifact_ok(member(j, "mainArtifact"@)->0)
    &&& member(j, "parent"@) is Some && short_build_ok(member(j, "parent"@)->0)
    &&& member(j, "pomArtifact"@) is Some && artifact_ok(member(j, "pomArtifact"@)->0)
}

pub open spec fn record_is(j: Json, m: MavenArtifactRecord) -> bool {
    &&& record_ok(j)
    &&& m.url@ == str_of(member(j, "url"@))->0
    &&& artifacts_are(member(j, "attachedArtifacts"@), m.attached_artifacts@)
    &&& artifact_is(member(j, "mainArtifact"@)->0, m.main_artifact)
    &&& short_build_is(member(j, "parent"@)->0, m.parent)
    &&& artifact_is(member(j, "pomArtifact"@)->0, m.pom_artifact)
}

fn read_artifacts(j: &Json, key: &str) -> (r: Result<Vec<Artifact>, DecodeError>)
    ensures
        r is Ok <==> artifacts_ok(member(*j, key@)),
        r is Ok ==> artifacts_are(member(*j, key@), r->Ok_0@),
{
    let items = read_items(j, key)?;
    let mut out: Vec<Artifact> = Vec::new();
    let mut i: usize = 0;
    while i < items.len()
        invariant
            i <= items.len(),
            items@ == items_of(member(*j, key@))->0,
            items_of(member(*j, key@)) is Some,
            out@.len() == i,
            forall|k: int| 0 <= k < i ==> artifact_is(#[trigger] items@[k], out@[k]),
        decreases items.len() - i,
    {
        match Artifact::decode(&items[i]) {
            Ok(a) => out.push(a),
            Err(e) => {
                return Err(e);
            },
        }
        i = i + 1;
    }
    Ok(out)
}

fn read_artifact(j: &Json, key: &str) -> (r: Result<Artifact, DecodeError>)
    ensures
        r is Ok <==> (member(*j, key@) is Some && artifact_ok(member(*j, key@)->0)),
        r is Ok ==> artifact_is(member(*j, key@)->0, r->Ok_0),
{
    match get_member(j, key) {
        Some(v) => Artifact::decode(v),
        None => Err(field_error(key)),
    }
}

impl MavenArtifactRecord {
    pub fn decode(j: &Json) -> (r: Result<MavenArtifactRecord, DecodeError>)
        ensures
            r is Ok <==> record_ok(*j),
            r is Ok ==> record_is(*j, r->Ok_0),
    {
        let url = read_string(j, "url")?;
        let attached_artifacts = read_artifacts(j, "attachedArtifacts")?;
        let main_artifact = read_artifact(j, "mainArtifact")?;
        let parent = match get_member(j, "parent") {
            Some(v) => ShortBuild::decode(v)?,
            None => {
                return Err(field_error("parent"));
            },
        };
        let pom_artifact = read_artifact(j, "pomArtifact")?;
        Ok(MavenArtifactRecord { url, attached_artifacts, main_artifact, parent, pom_artifact })
    }
}

impl ShortMavenArtifactRecord {
    /// Fetches the full record that this link points to. The URL must address
    /// an artifact record: otherwise the result is `InvalidUrl` and `fetch` is
    /// not called. Else `fetch` gets the record's URL under `base` and hands
    /// back its JSON.
    pub fn get_full_artifact_record<E, F: FnOnce(Vec<u8>) -> Result<Json, E>>(&self, base: &str, fetch: F) -> (r: Result<MavenArtifactRecord, FetchError<E>>)
        requires
            forall|u: Vec<u8>| fetch.requires((u,)),
        ensures
            match parse(url_bytes(self.url), base.spec_bytes()) {
                Some(p) if p is MavenArtifactRecord => match r {
                    Ok(m) => exists|u: Vec<u8>, j: Json|
                        u@ == render(p, base.spec_bytes()) && fetch.ensures((u,), Ok::<Json, E>(j))
                            && record_is(j, m),
                    Err(FetchError::Client(_)) => false,
                    Err(FetchError::Transport(e)) => exists|u: Vec<u8>|
                        u@ == render(p, base.spec_bytes()) && fetch.ensures((u,), Err::<Json, E>(e)),
                    Err(FetchError::Decode(_)) => exists|u: Vec<u8>, j: Json|
                        u@ == render(p, base.spec_bytes()) && fetch.ensures((u,), Ok::<Json, E>(j))
                            && !record_ok(j),
                },
                _ => r matches Err(FetchError::Client(ClientError::InvalidUrl { url, expected }))
                    && url@ == self.url@ && expected == ExpectedType::MavenArtifactRecord,
            },
    {
        let path = match Path::parse(self.url.as_str(), base) {
            Some(p) => match p {
                Path::MavenArtifactRecord { .. } => p,
                _ => {
                    return Err(FetchError::Client(ClientError::InvalidUrl {
                        url: self.url.clone(),
                        expected: ExpectedType::MavenArtifactRecord,
                    }));
                },
            },
            None => {
                return Err(FetchError::Client(ClientError::InvalidUrl {
                    url: self.url.clone(),
                    expected: ExpectedType::MavenArtifactRecord,
                }));
            },
        };
        let url = path.render(base);
        let ghost u = url;
        let answer = fetch(url);
        match answer {
            Ok(j) => match MavenArtifactRecord::decode(&j) {
                Ok(m) => Ok(m),
                Err(e) => Err(FetchError::Decode(e)),
            },
            Err(e) => Err(FetchError::Transport(e)),
        }
    }
}

} // verus!
