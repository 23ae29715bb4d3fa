//! Jobs and the resources nested in them, decoded from the server's JSON.
//!
//! Each tagged family (jobs, SCMs, properties, browsers) has a closed set of
//! known variants chosen by the `_class` member, and an `Unknown` variant that
//! keeps the class (if any) for every other value: decoding a tagged value
//! never fails because its class is not known.

use vstd::prelude::*;
use vstd::string::StringSliceAdditionalSpecFns;
use vstd::utf8::encode_utf8;
use crate::error::{ClientError, ExpectedType, FetchError};
use crate::path::{parse, render, Name, Path, PathView};
use crate::json::{
    bool_of, field_error, get_member, is_absent, items_of, member, opt_str_of, opt_string_view,
    read_bool, read_items, read_opt_string, read_string, read_u16, read_u32, str_eq, str_of,
    u16_of, u32_of, DecodeError, Json,
};

verus! {

/// Ball color standing for the status of a job.
#[derive(Debug, Clone, Copy, PartialEq, Eq, Structural)]
pub enum BallColor {
    /// Success
    Blue,
    /// Success, and a build is ongoing
    BlueAnime,
    /// Unstable
    Yellow,
    /// Unstable, and a build is ongoing
    YellowAnime,
    /// Failure
    Red,
    /// Failure, and a build is ongoing
    RedAnime,
    /// Disabled, aborted or not yet built
    Grey,
    /// Disabled, aborted or not yet built, and a build is ongoing
    GreyAnime,
    /// Disabled
    Disabled,
    /// Disabled, and a build is ongoing
    DisabledAnime,
    /// Aborted
    Aborted,
    /// Aborted, and a build is ongoing
    AbortedAnime,
    /// Not built
    NotBuilt,
    /// Not built, and a build is ongoing
    NotBuiltAnime,
}

impl Default for BallColor {
    fn default() -> (r: Self)
        ensures
            r == BallColor::NotBuilt,
    {
        BallColor::NotBuilt
    }
}

/// The color that a wire name stands for.
pub open spec fn color_of(s: Seq<char>) -> Option<BallColor> {
    if s == "blue"@ {
        Some(BallColor::Blue)
    } else if s == "blue_anime"@ {
        Some(BallColor::BlueAnime)
    } else if s == "yellow"@ {
        Some(BallColor::Yellow)
    } else if s == "yellow_anime"@ {
        Some(BallColor::YellowAnime)
    } else if s == "red"@ {
        Some(BallColor::Red)
    } else if s == "red_anime"@ {
        Some(BallColor::RedAnime)
    } else if s == "grey"@ {
        Some(BallColor::Grey)
    } else if s == "grey_anime"@ {
        Some(BallColor::GreyAnime)
    } else if s == "disabled"@ {
        Some(BallColor::Disabled)
    } else if s == "disabled_anime"@ {
        Some(BallColor::DisabledAnime)
    } else if s == "aborted"@ {
        Some(BallColor::Aborted)
    } else if s == "aborted_anime"@ {
        Some(BallColor::AbortedAnime)
    } else if s == "notbuilt"@ {
        Some(BallColor::NotBuilt)
    } else if s == "notbuilt_anime"@ {
        Some(BallColor::NotBuiltAnime)
    } else {
        None
    }
}

/// The color member `key`.
pub open spec fn color_member(j: Json, key: Seq<char>) -> Option<BallColor> {
    match str_of(member(j, key)) {
        Some(s) => color_of(s),
        None => None,
    }
}

impl BallColor {
    /// The color with this wire name.
    pub fn from_name(s: &str) -> (r: Option<BallColor>)
        ensures
            r == color_of(s@),
    {
        if str_eq(s, "blue") {
            Some(BallColor::Blue)
        } else if str_eq(s, "blue_anime") {
            Some(BallColor::BlueAnime)
        } else if str_eq(s, "yellow") {
            Some(BallColor::Yellow)
        } else if str_eq(s, "yellow_anime") {
            Some(BallColor::YellowAnime)
        } else if str_eq(s, "red") {
            Some(BallColor::Red)
        } else if str_eq(s, "red_anime") {
            Some(BallColor::RedAnime)
        } else if str_eq(s, "grey") {
            Some(BallColor::Grey)
        } else if str_eq(s, "grey_anime") {
            Some(BallColor::GreyAnime)
        } else if str_eq(s, "disabled") {
            Some(BallColor::Disabled)
        } else if str_eq(s, "disabled_anime") {
            Some(BallColor::DisabledAnime)
        } else if str_eq(s, "aborted") {
            Some(BallColor::Aborted)
        } else if str_eq(s, "aborted_anime") {
            Some(BallColor::AbortedAnime)
        } else if str_eq(s, "notbuilt") {
            Some(BallColor::NotBuilt)
        } else if str_eq(s, "notbuilt_anime") {
            Some(BallColor::NotBuiltAnime)
        } else {
            None
        }
    }
}

fn read_color(j: &Json, key: &str) -> (r: Result<BallColor, DecodeError>)
    ensures
        r is Ok <==> color_member(*j, key@) is Some,
        r is Ok ==> r->Ok_0 == color_member(*j, key@)->0,
{
    match get_member(j, key) {
        Some(Json::Str(s)) => match BallColor::from_name(s.as_str()) {
            Some(c) => Ok(c),
            None => Err(field_error(key)),
        },
        _ => Err(field_error(key)),
    }
}

/// The `_class` member of a tagged value.
pub open spec fn class_of(j: Json) -> Option<Seq<char>> {
    str_of(member(j, "_class"@))
}

fn read_class(j: &Json) -> (r: Option<String>)
    ensures
        opt_string_view(r) == class_of(*j),
{
    match get_member(j, "_class") {
        Some(Json::Str(s)) => Some(s.clone()),
        _ => None,
    }
}

// ------------------------------------------------------------ short build
/// Link to a build.
#[derive(Debug, Clone)]
pub struct ShortBuild {
    pub url: String,
    pub number: u32,
}

pub open spec fn short_build_ok(j: Json) -> bool {
    &&& str_of(member(j, "url"@)) is Some
    &&& u32_of(member(j, "number"@)) is Some
}

pub open spec fn short_build_is(j: Json, b: ShortBuild) -> bool {
    &&& short_build_ok(j)
    &&& b.url@ == str_of(member(j, "url"@))->0
    &&& b.number == u32_of(member(j, "number"@))->0
}

impl ShortBuild {
    pub fn decode(j: &Json) -> (r: Result<ShortBuild, DecodeError>)
        ensures
            r is Ok <==> short_build_ok(*j),
            r is Ok ==> short_build_is(*j, r->Ok_0),
    {
        let url = read_string(j, "url")?;
        let number = read_u32(j, "number")?;
        Ok(ShortBuild { url, number })
    }
}

pub open spec fn opt_short_build_ok(v: Option<Json>) -> bool {
    is_absent(v) || short_build_ok(v->0)
}

pub open spec fn opt_short_build_is(v: Option<Json>, b: Option<ShortBuild>) -> bool {
    if is_absent(v) {
        b is None
    } else {
        b is Some && short_build_is(v->0, b->0)
    }
}

fn read_opt_short_build(j: &Json, key: &str) -> (r: Result<Option<ShortBuild>, DecodeError>)
    ensures
        r is Ok <==> opt_short_build_ok(member(*j, key@)),
        r is Ok ==> opt_short_build_is(member(*j, key@), r->Ok_0),
{
    match get_member(j, key) {
        None => Ok(None),
        Some(Json::Null) => Ok(None),
        Some(v) => {
            let b = ShortBuild::decode(v)?;
            Ok(Some(b))
        },
    }
}

pub open spec fn short_builds_ok(v: Option<Json>) -> bool {
    &&& items_of(v) is Some
    &&& forall|i: int| 0 <= i < items_of(v)->0.len() ==> short_build_ok(#[trigger] items_of(v)->0[i])
}

pub open spec fn short_builds_are(v: Option<Json>, bs: Seq<ShortBuild>) -> bool {
    &&& short_builds_ok(v)
    &&& bs.len() == items_of(v)->0.len()
    &&& forall|i: int| 0 <= i < bs.len() ==> short_build_is(#[trigger] items_of(v)->0[i], bs[i])
}

fn read_short_builds(j: &Json, key: &str) -> (r: Result<Vec<ShortBuild>, DecodeError>)
    ensures
        r is Ok <==> short_builds_ok(member(*j, key@)),
        r is Ok ==> short_builds_are(member(*j, key@), r->Ok_0@),
{
    let items = read_items(j, key)?;
    let mut out: Vec<ShortBuild> = Vec::new();
    let mut i: usize = 0;
    while i < items.len()
        invariant
            i <= items.len(),
            items@ == items_of(member(*j, key@))->0,
            items_of(member(*j, key@)) is Some,
            out@.len() == i,
            forall|k: int| 0 <= k < i ==> short_build_is(#[trigger] items@[k], out@[k]),
        decreases items.len() - i,
    {
        match ShortBuild::decode(&items[i]) {
            Ok(b) => out.push(b),
            Err(e) => {
                return Err(e);
            },
        }
        i = i + 1;
    }
    Ok(out)
}

// ------------------------------------------------------------ health report
/// Health report of a job.
#[derive(Debug, Clone)]
pub struct HealthReport {
    pub description: String,
    pub icon_class_name: String,
    pub icon_url: String,
    pub score: u16,
}

pub open spec fn health_report_ok(j: Json) -> bool {
    &&& str_of(member(j, "description"@)) is Some
    &&& str_of(member(j, "iconClassName"@)) is Some
    &&& str_of(member(j, "iconUrl"@)) is Some
    &&& u16_of(member(j, "score"@)) is Some
}

pub open spec fn health_report_is(j: Json, h: HealthReport) -> bool {
    &&& health_report_ok(j)
    &&& h.description@ == str_of(member(j, "description"@))->0
    &&& h.icon_class_name@ == str_of(member(j, "iconClassName"@))->0
    &&& h.icon_url@ == str_of(member(j, "iconUrl"@))->0
    &&& h.score == u16_of(member(j, "score"@))->0
}

impl HealthReport {
    pub fn decode(j: &Json) -> (r: Result<HealthReport, DecodeError>)
        ensures
            r is Ok <==> health_report_ok(*j),
            r is Ok ==> health_report_is(*j, r->Ok_0),
    {
        let description = read_string(j, "description")?;
        let icon_class_name = read_string(j, "iconClassName")?;
        let icon_url = read_string(j, "iconUrl")?;
        let score = read_u16(j, "score")?;
        Ok(HealthReport { description, icon_class_name, icon_url, score })
    }
}

pub open spec fn health_reports_ok(v: Option<Json>) -> bool {
    &&& items_of(v) is Some
    &&& forall|i: int| 0 <= i < items_of(v)->0.len() ==> health_report_ok(#[trigger] items_of(v)->0[i])
}

pub open spec fn health_reports_are(v: Option<Json>, hs: Seq<HealthReport>) -> bool {
    &&& health_reports_ok(v)
    &&& hs.len() == items_of(v)->0.len()
    &&& forall|i: int| 0 <= i < hs.len() ==> health_report_is(#[trigger] items_of(v)->0[i], hs[i])
}

fn read_health_reports(j: &Json, key: &str) -> (r: Result<Vec<HealthReport>, DecodeError>)
    ensures
        r is Ok <==> health_reports_ok(member(*j, key@)),
        r is Ok ==> health_reports_are(member(*j, key@), r->Ok_0@),
{
    let items = read_items(j, key)?;
    let mut out: Vec<HealthReport> = Vec::new();
    let mut i: usize = 0;
    while i < items.len()
        invariant
            i <= items.len(),
            items@ == items_of(member(*j, key@))->0,
            items_of(member(*j, key@)) is Some,
            out@.len() == i,
            forall|k: int| 0 <= k < i ==> health_report_is(#[trigger] items@[k], out@[k]),
        decreases items.len() - i,
    {
        match HealthReport::decode(&items[i]) {
            Ok(h) => out.push(h),
            Err(e) => {
                return Err(e);
            },
        }
        i = i + 1;
    }
    Ok(out)
}

// ---------------------------------------------------------------- short job
/// Link to a job, as it stands in lists and in other resources.
#[derive(Debug, Clone)]
pub struct ShortJob {
    pub name: String,
    pub url: String,
    pub color: BallColor,
}

pub open spec fn short_job_ok(j: Json) -> bool {
    &&& str_of(member(j, "name"@)) is Some
    &&& str_of(member(j, "url"@)) is Some
    &&& color_member(j, "color"@) is Some
}

pub open spec fn short_job_is(j: Json, s: ShortJob) -> bool {
    &&& short_job_ok(j)
    &&& s.name@ == str_of(member(j, "name"@))->0
    &&& s.url@ == str_of(member(j, "url"@))->0
    &&& s.color == color_member(j, "color"@)->0
}

impl ShortJob {
    pub fn decode(j: &Json) -> (r: Result<ShortJob, DecodeError>)
        ensures
            r is Ok <==> short_job_ok(*j),
            r is Ok ==> short_job_is(*j, r->Ok_0),
    {
        let name = read_string(j, "name")?;
        let url = read_string(j, "url")?;
        let color = read_color(j, "color")?;
        Ok(ShortJob { name, url, color })
    }
}

pub open spec fn short_jobs_ok(v: Option<Json>) -> bool {
    &&& items_of(v) is Some
    &&& forall|i: int| 0 <= i < items_of(v)->0.len() ==> short_job_ok(#[trigger] items_of(v)->0[i])
}

pub open spec fn short_jobs_are(v: Option<Json>, js: Seq<ShortJob>) -> bool {
    &&& short_jobs_ok(v)
    &&& js.len() == items_of(v)->0.len()
    &&& forall|i: int| 0 <= i < js.len() ==> short_job_is(#[trigger] items_of(v)->0[i], js[i])
}

fn read_short_jobs(j: &Json, key: &str) -> (r: Result<Vec<ShortJob>, DecodeError>)
    ensures
        r is Ok <==> short_jobs_ok(member(*j, key@)),
        r is Ok ==> short_jobs_are(member(*j, key@), r->Ok_0@),
{
    let items = read_items(j, key)?;
    let mut out: Vec<ShortJob> = Vec::new();
    let mut i: usize = 0;
    while i < items.len()
        invariant
            i <= items.len(),
            items@ == items_of(member(*j, key@))->0,
            items_of(member(*j, key@)) is Some,
            out@.len() == i,
            forall|k: int| 0 <= k < i ==> short_job_is(#[trigger] items@[k], out@[k]),
        decreases items.len() - i,
    {
        match ShortJob::decode(&items[i]) {
            Ok(s) => out.push(s),
            Err(e) => {
                return Err(e);
            },
        }
        i = i + 1;
    }
    Ok(out)
}

// ------------------------------------------------------------ merge options
/// Merge options of a git SCM.
#[derive(Debug, Clone)]
pub struct MergeOptions {
    pub merge_strategy: String,
    pub fast_forward_mode: String,
    pub merge_target: Option<String>,
    pub remote_branch_name: Option<String>,
}

pub open spec fn merge_options_ok(j: Json) -> bool {
    &&& str_of(member(j, "mergeStrategy"@)) is Some
    &&& str_of(member(j, "fastForwardMode"@)) is Some
    &&& opt_str_of(member(j, "mergeTarget"@)) is Some
    &&& opt_str_of(member(j, "remoteBranchName"@)) is Some
}

pub open spec fn merge_options_is(j: Json, m: MergeOptions) -> bool {
    &&& merge_options_ok(j)
    &&& m.merge_strategy@ == str_of(member(j, "mergeStrategy"@))->0
    &&& m.fast_forward_mode@ == str_of(member(j, "fastForwardMode"@))->0
    &&& opt_string_view(m.merge_target) == opt_str_of(member(j, "mergeTarget"@))->0
    &&& opt_string_view(m.remote_branch_name) == opt_str_of(member(j, "remoteBranchName"@))->0
}

impl MergeOptions {
    pub fn decode(j: &Json) -> (r: Result<MergeOptions, DecodeError>)
        ensures
            r is Ok <==> merge_options_ok(*j),
            r is Ok ==> merge_options_is(*j, r->Ok_0),
    {
        let merge_strategy = read_string(j, "mergeStrategy")?;
        let fast_forward_mode = read_string(j, "fastForwardMode")?;
        let merge_target = read_opt_string(j, "mergeTarget")?;
        let remote_branch_name = read_opt_string(j, "remoteBranchName")?;
        Ok(MergeOptions { merge_strategy, fast_forward_mode, merge_target, remote_branch_name })
    }
}

// ------------------------------------------------------------------ browser
/// A repository browser.
#[derive(Debug, Clone)]
pub enum Browser {
    GithubWeb,
    Unknown { class: Option<String> },
}

pub open spec fn browser_is(j: Json, b: Browser) -> bool {
    if class_of(j) == Some("hudson.plugins.git.browser.GithubWeb"@) {
        b is GithubWeb
    } else {
        b matches Browser::Unknown { class } && opt_string_view(class) == class_of(j)
    }
}

impl Browser {
    /// Decodes a browser; a class that is not known gives `Unknown`.
    pub fn decode(j: &Json) -> (r: Browser)
        ensures
            browser_is(*j, r),
    {
        let class = read_class(j);
        match class {
            Some(c) => if str_eq(c.as_str(), "hudson.plugins.git.browser.GithubWeb") {
                Browser::GithubWeb
            } else {
                Browser::Unknown { class: Some(c) }
            },
            None => Browser::Unknown { class: None },
        }
    }
}

impl Default for Browser {
    fn default() -> (r: Self)
        ensures
            r matches Browser::Unknown { class } && class is None,
    {
        Browser::Unknown { class: None }
    }
}

pub open spec fn opt_browser_is(v: Option<Json>, b: Option<Browser>) -> bool {
    if is_absent(v) {
        b is None
    } else {
        b is Some && browser_is(v->0, b->0)
    }
}

fn read_opt_browser(j: &Json, key: &str) -> (r: Option<Browser>)
    ensures
        opt_browser_is(member(*j, key@), r),
{
    match get_member(j, key) {
        None => None,
        Some(Json::Null) => None,
        Some(v) => Some(Browser::decode(v)),
    }
}

// ---------------------------------------------------------------------- SCM
/// The source control configured for a job.
#[derive(Debug, Clone)]
pub enum SCM {
    NullSCM { browser: Option<Browser> },
    GitSCM { browser: Option<Browser>, merge_options: MergeOptions },
    Unknown { class: Option<String> },
}

pub open spec fn scm_ok(j: Json) -> bool {
    if class_of(j) == Some("hudson.scm.NullSCM"@) {
        true
    } else if class_of(j) == Some("hudson.plugins.git.GitSCM"@) {
        member(j, "mergeOptions"@) is Some && merge_options_ok(member(j, "mergeOptions"@)->0)
    } else {
        true
    }
}

pub open spec fn scm_is(j: Json, s: SCM) -> bool {
    if class_of(j) == Some("hudson.scm.NullSCM"@) {
        s matches SCM::NullSCM { browser } && opt_browser_is(member(j, "browser"@), browser)
    } else if class_of(j) == Some("hudson.plugins.git.GitSCM"@) {
        s matches SCM::GitSCM { browser, merge_options } && opt_browser_is(
            member(j, "browser"@),
            browser,
        ) && merge_options_ok(member(j, "mergeOptions"@)->0) && merge_options_is(
            member(j, "mergeOptions"@)->0,
            merge_options,
        )
    } else {
        s matches SCM::Unknown { class } && opt_string_view(class) == class_of(j)
    }
}

impl SCM {
    /// Decodes an SCM; a class that is not known gives `Unknown`.
    pub fn decode(j: &Json) -> (r: Result<SCM, DecodeError>)
        ensures
            r is Ok <==> scm_ok(*j),
            r is Ok ==> scm_is(*j, r->Ok_0),
    {
        let class = read_class(j);
        match class {
            Some(c) => if str_eq(c.as_str(), "hudson.scm.NullSCM") {
                Ok(SCM::NullSCM { browser: read_opt_browser(j, "browser") })
            } else if str_eq(c.as_str(), "hudson.plugins.git.GitSCM") {
                let browser = read_opt_browser(j, "browser");
                match get_member(j, "mergeOptions") {
                    Some(m) => {
                        let merge_options = MergeOptions::decode(m)?;
                        Ok(SCM::GitSCM { browser, merge_options })
                    },
                    None => Err(field_error("mergeOptions")),
                }
            } else {
                Ok(SCM::Unknown { class: Some(c) })
            },
            None => Ok(SCM::Unknown { class: None }),
        }
    }
}

impl Default for SCM {
    fn default() -> (r: Self)
        ensures
            r matches SCM::NullSCM { browser } && browser is None,
    {
        SCM::NullSCM { browser: None }
    }
}

// ----------------------------------------------------------------- property
/// A property of a job.
#[derive(Debug, Clone)]
pub enum Property {
    GithubProjectProperty,
    RateLimitBranchProperty,
    BuildDiscarderProperty,
    Unknown { class: Option<String> },
}

pub open spec fn property_is(j: Json, p: Property) -> bool {
    if class_of(j) == Some("com.coravy.hudson.plugins.github.GithubProjectProperty"@) {
        p is GithubProjectProperty
    } else if class_of(j) == Some("jenkins.branch.RateLimitBranchProperty$JobPropertyImpl"@) {
        p is RateLimitBranchProperty
    } else if class_of(j) == Some("jenkins.model.BuildDiscarderProperty"@) {
        p is BuildDiscarderProperty
    } else {
        p matches Property::Unknown { class } && opt_string_view(class) == class_of(j)
    }
}

impl Property {
    /// Decodes a property; a class that is not known gives `Unknown`.
    pub fn decode(j: &Json) -> (r: Property)
        ensures
            property_is(*j, r),
    {
        let class = read_class(j);
        match class {
            Some(c) => if str_eq(c.as_str(), "com.coravy.hudson.plugins.github.GithubProjectProperty") {
                Property::GithubProjectProperty
            } else if str_eq(c.as_str(), "jenkins.branch.RateLimitBranchProperty$JobPropertyImpl") {
                Property::RateLimitBranchProperty
            } else if str_eq(c.as_str(), "jenkins.model.BuildDiscarderProperty") {
                Property::BuildDiscarderProperty
            } else {
                Property::Unknown { class: Some(c) }
            },
            None => Property::Unknown { class: None },
        }
    }
}

pub open spec fn properties_are(v: Option<Json>, ps: Seq<Property>) -> bool {
    &&& items_of(v) is Some
    &&& ps.len() == items_of(v)->0.len()
    &&& forall|i: int| 0 <= i < ps.len() ==> property_is(#[trigger] items_of(v)->0[i], ps[i])
}

fn read_properties(j: &Json, key: &str) -> (r: Result<Vec<Property>, DecodeError>)
    ensures
        r is Ok <==> items_of(member(*j, key@)) is Some,
        r is Ok ==> properties_are(member(*j, key@), r->Ok_0@),
{
    let items = read_items(j, key)?;
    let mut out: Vec<Property> = Vec::new();
    let mut i: usize = 0;
    while i < items.len()
        invariant
            i <= items.len(),
            items@ == items_of(member(*j, key@))->0,
            items_of(member(*j, key@)) is Some,
            out@.len() == i,
            forall|k: int| 0 <= k < i ==> property_is(#[trigger] items@[k], out@[k]),
        decreases items.len() - i,
    {
        out.push(Property::decode(&items[i]));
        i = i + 1;
    }
    Ok(out)
}

// ---------------------------------------------------------------------- job
/// The members that every known kind of job has.
#[derive(Debug, Clone)]
pub struct JobCommon {
    pub name: String,
    pub display_name: String,
    pub full_name: String,
    pub description: Option<String>,
    pub url: String,
    pub color: BallColor,
    pub buildable: bool,
    pub in_queue: bool,
    pub next_build_number: u32,
    pub last_build: Option<ShortBuild>,
    pub builds: Vec<ShortBuild>,
    pub health_report: Vec<HealthReport>,
    pub property: Vec<Property>,
}

pub open spec fn job_common_ok(j: Json) -> bool {
    &&& str_of(member(j, "name"@)) is Some
    &&& str_of(member(j, "displayName"@)) is Some
    &&& str_of(member(j, "fullName"@)) is Some
    &&& opt_str_of(member(j, "description"@)) is Some
    &&& str_of(member(j, "url"@)) is Some
    &&& color_member(j, "color"@) is Some
    &&& bool_of(member(j, "buildable"@)) is Some
    &&& bool_of(member(j, "inQueue"@)) is Some
    &&& u32_of(member(j, "nextBuildNumber"@)) is Some
    &&& opt_short_build_ok(member(j, "lastBuild"@))
    &&& short_builds_ok(member(j, "builds"@))
    &&& health_reports_ok(member(j, "healthReport"@))
    &&& items_of(member(j, "property"@)) is Some
}

pub open spec fn job_common_is(j: Json, c: JobCommon) -> bool {
    &&& job_common_ok(j)
    &&& c.name@ == str_of(member(j, "name"@))->0
    &&& c.display_name@ == str_of(member(j, "displayName"@))->0
    &&& c.full_name@ == str_of(member(j, "fullName"@))->0
    &&& opt_string_view(c.description) == opt_str_of(member(j, "description"@))->0
    &&& c.url@ == str_of(member(j, "url"@))->0
    &&& c.color == color_member(j, "color"@)->0
    &&& c.buildable == bool_of(member(j, "buildable"@))->0
    &&& c.in_queue == bool_of(member(j, "inQueue"@))->0
    &&& c.next_build_number == u32_of(member(j, "nextBuildNumber"@))->0
    &&& opt_short_build_is(member(j, "lastBuild"@), c.last_build)
    &&& short_builds_are(member(j, "builds"@), c.builds@)
    &&& health_reports_are(member(j, "healthReport"@), c.health_report@)
    &&& properties_are(member(j, "property"@), c.property@)
}

impl JobCommon {
    pub fn decode(j: &Json) -> (r: Result<JobCommon, DecodeError>)
        ensures
            r is Ok <==> job_common_ok(*j),
            r is Ok ==> job_common_is(*j, r->Ok_0),
    {
        let name = read_string(j, "name")?;
        let display_name = read_string(j, "displayName")?;
        let full_name = read_string(j, "fullName")?;
        let description = read_opt_string(j, "description")?;
        let url = read_string(j, "url")?;
        let color = read_color(j, "color")?;
        let buildable = read_bool(j, "buildable")?;
        let in_queue = read_bool(j, "inQueue")?;
        let next_build_number = read_u32(j, "nextBuildNumber")?;
        let last_build = read_opt_short_build(j, "lastBuild")?;
        let builds = read_short_builds(j, "builds")?;
        let health_report = read_health_reports(j, "healthReport")?;
        let property = read_properties(j, "property")?;
        Ok(
            JobCommon {
                name,
                display_name,
                full_name,
                description,
                url,
                color,
                buildable,
                in_queue,
                next_build_number,
                last_build,
                builds,
                health_report,
                property,
            },
        )
    }
}

/// The members of the kinds of job that build from sources.
#[derive(Debug, Clone)]
pub struct ProjectDetails {
    pub concurrent_build: bool,
    pub scm: SCM,
    pub upstream_projects: Vec<ShortJob>,
    pub downstream_projects: Vec<ShortJob>,
    pub label_expression: Option<String>,
}

pub open spec fn project_details_ok(j: Json) -> bool {
    &&& bool_of(member(j, "concurrentBuild"@)) is Some
    &&& member(j, "scm"@) is Some
    &&& scm_ok(member(j, "scm"@)->0)
    &&& short_jobs_ok(member(j, "upstreamProjects"@))
    &&& short_jobs_ok(member(j, "downstreamProjects"@))
    &&& opt_str_of(member(j, "labelExpression"@)) is Some
}

pub open spec fn project_details_is(j: Json, d: ProjectDetails) -> bool {
    &&& project_details_ok(j)
    &&& d.concurrent_build == bool_of(member(j, "concurrentBuild"@))->0
    &&& scm_is(member(j, "scm"@)->0, d.scm)
    &&& short_jobs_are(member(j, "upstreamProjects"@), d.upstream_projects@)
    &&& short_jobs_are(member(j, "downstreamProjects"@), d.downstream_projects@)
    &&& opt_string_view(d.label_expression) == opt_str_of(member(j, "labelExpression"@))->0
}

impl ProjectDetails {
    pub fn decode(j: &Json) -> (r: Result<ProjectDetails, DecodeError>)
        ensures
            r is Ok <==> project_details_ok(*j),
            r is Ok ==> project_details_is(*j, r->Ok_0),
    {
        let concurrent_build = read_bool(j, "concurrentBuild")?;
        let scm = match get_member(j, "scm") {
            Some(v) => SCM::decode(v)?,
            None => {
                return Err(field_error("scm"));
            },
        };
        let upstream_projects = read_short_jobs(j, "upstreamProjects")?;
        let downstream_projects = read_short_jobs(j, "downstreamProjects")?;
        let label_expression = read_opt_string(j, "labelExpression")?;
        Ok(
            ProjectDetails {
                concurrent_build,
                scm,
                upstream_projects,
                downstream_projects,
                label_expression,
            },
        )
    }
}

/// A job of the server.
#[derive(Debug, Clone)]
pub enum Job {
    FreeStyleProject { common: JobCommon, details: ProjectDetails },
    WorkflowJob { common: JobCommon, concurrent_build: bool },
    MatrixProject {
        common: JobCommon,
        details: ProjectDetails,
        active_configurations: Vec<ShortJob>,
    },
    MatrixConfiguration { common: JobCommon, details: ProjectDetails },
    ExternalJob { common: JobCommon },
    MavenModuleSet { common: JobCommon, details: ProjectDetails, modules: Vec<ShortJob> },
    MavenModule { common: JobCommon, details: ProjectDetails },
    /// A job whose class is not known, with that class if it had one.
    Unknown { class: Option<String> },
}

/// Whether `class` names one of the known kinds of job.
pub open spec fn is_known_job_class(class: Option<Seq<char>>) -> bool {
    class == Some("hudson.model.FreeStyleProject"@) || class == Some(
        "org.jenkinsci.plugins.workflow.job.WorkflowJob"@,
    ) || class == Some("hudson.matrix.MatrixProject"@) || class == Some(
        "hudson.matrix.MatrixConfiguration"@,
    ) || class == Some("hudson.model.ExternalJob"@) || class == Some(
        "hudson.maven.MavenModuleSet"@,
    ) || class == Some("hudson.maven.MavenModule"@)
}

/// Whether the JSON value decodes as a job.
pub open spec fn job_ok(j: Json) -> bool {
    let c = class_of(j);
    if c == Some("hudson.model.FreeStyleProject"@) {
        job_common_ok(j) && project_details_ok(j)
    } else if c == Some("org.jenkinsci.plugins.workflow.job.WorkflowJob"@) {
        job_common_ok(j) && bool_of(member(j, "concurrentBuild"@)) is Some
    } else if c == Some("hudson.matrix.MatrixProject"@) {
        job_common_ok(j) && project_details_ok(j) && short_jobs_ok(
            member(j, "activeConfigurations"@),
        )
    } else if c == Some("hudson.matrix.MatrixConfiguration"@) {
        job_common_ok(j) && project_details_ok(j)
    } else if c == Some("hudson.model.ExternalJob"@) {
        job_common_ok(j)
    } else if c == Some("hudson.maven.MavenModuleSet"@) {
        job_common_ok(j) && project_details_ok(j) && short_jobs_ok(member(j, "modules"@))
    } else if c == Some("hudson.maven.MavenModule"@) {
        job_common_ok(j) && project_details_ok(j)
    } else {
        true
    }
}

/// Whether `job` is what the JSON value decodes to.
pub open spec fn job_is(j: Json, job: Job) -> bool {
    let c = class_of(j);
    if c == Some("hudson.model.FreeStyleProject"@) {
        job matches Job::FreeStyleProject { common, details } && job_common_is(j, common)
            && project_details_is(j, details)
    } else if c == Some("org.jenkinsci.plugins.workflow.job.WorkflowJob"@) {
        job matches Job::WorkflowJob { common, concurrent_build } && job_common_is(j, common)
            && concurrent_build == bool_of(member(j, "concurrentBuild"@))->0
    } else if c == Some("hudson.matrix.MatrixProject"@) {
        job matches Job::MatrixProject { common, details, active_configurations }
            && job_common_is(j, common) && project_details_is(j, details) && short_jobs_are(
            member(j, "activeConfigurations"@),
            active_configurations@,
        )
    } else if c == Some("hudson.matrix.MatrixConfiguration"@) {
        job matches Job::MatrixConfiguration { common, details } && job_common_is(j, common)
            && project_details_is(j, details)
    } else if c == Some("hudson.model.ExternalJob"@) {
        job matches Job::ExternalJob { common } && job_common_is(j, common)
    } else if c == Some("hudson.maven.MavenModuleSet"@) {
        job matches Job::MavenModuleSet { common, details, modules } && job_common_is(j, common)
            && project_details_is(j, details) && short_jobs_are(member(j, "modules"@), modules@)
    } else if c == Some("hudson.maven.MavenModule"@) {
        job matches Job::MavenModule { common, details } && job_common_is(j, common)
            && project_details_is(j, details)
    } else {
        job matches Job::Unknown { class } && opt_string_view(class) == c
    }
}

/// The common members of a job of a known kind.
pub open spec fn common_of(job: Job) -> Option<JobCommon> {
    match job {
        Job::FreeStyleProject { common, .. } => Some(common),
        Job::WorkflowJob { common, .. } => Some(common),
        Job::MatrixProject { common, .. } => Some(common),
        Job::MatrixConfiguration { common, .. } => Some(common),
        Job::ExternalJob { common } => Some(common),
        Job::MavenModuleSet { common, .. } => Some(common),
        Job::MavenModule { common, .. } => Some(common),
        Job::Unknown { .. } => None,
    }
}

impl Job {
    /// Decodes a job. The `_class` member picks the kind; a class that is not
    /// known (or none) gives `Unknown`, whatever the other members hold.
    pub fn decode(j: &Json) -> (r: Result<Job, DecodeError>)
        ensures
            r is Ok <==> job_ok(*j),
            r is Ok ==> job_is(*j, r->Ok_0),
    {
        let class = read_class(j);
        let c = match class {
            Some(c) => c,
            None => {
                return Ok(Job::Unknown { class: None });
            },
        };
        if str_eq(c.as_str(), "hudson.model.FreeStyleProject") {
            let common = JobCommon::decode(j)?;
            let details = ProjectDetails::decode(j)?;
            Ok(Job::FreeStyleProject { common, details })
        } else if str_eq(c.as_str(), "org.jenkinsci.plugins.workflow.job.WorkflowJob") {
            let common = JobCommon::decode(j)?;
            let concurrent_build = read_bool(j, "concurrentBuild")?;
            Ok(Job::WorkflowJob { common, concurrent_build })
        } else if str_eq(c.as_str(), "hudson.matrix.MatrixProject") {
            let common = JobCommon::decode(j)?;
            let details = ProjectDetails::decode(j)?;
            let active_configurations = read_short_jobs(j, "activeConfigurations")?;
            Ok(Job::MatrixProject { common, details, active_configurations })
        } else if str_eq(c.as_str(), "hudson.matrix.MatrixConfiguration") {
            let common = JobCommon::decode(j)?;
            let details = ProjectDetails::decode(j)?;
            Ok(Job::MatrixConfiguration { common, details })
        } else if str_eq(c.as_str(), "hudson.model.ExternalJob") {
            let common = JobCommon::decode(j)?;
            Ok(Job::ExternalJob { common })
        } else if str_eq(c.as_str(), "hudson.maven.MavenModuleSet") {
            let common = JobCommon::decode(j)?;
            let details = ProjectDetails::decode(j)?;
            let modules = read_short_jobs(j, "modules")?;
            Ok(Job::MavenModuleSet { common, details, modules })
        } else if str_eq(c.as_str(), "hudson.maven.MavenModule") {
            let common = JobCommon::decode(j)?;
            let details = ProjectDetails::decode(j)?;
            Ok(Job::MavenModule { common, details })
        } else {
            Ok(Job::Unknown { class: Some(c) })
        }
    }
}

/// A job value whose class is not one of the known kinds decodes, and to
/// `Unknown` with that very class, whatever its other members hold.
pub proof fn lemma_unknown_job_class_decodes(j: Json, job: Job)
    requires
        !is_known_job_class(class_of(j)),
    ensures
        job_ok(j),
        job_is(j, job) <==> (job matches Job::Unknown { class } && opt_string_view(class)
            == class_of(j)),
{
}

/// A decoded job of unknown class fails every accessor: it has no common
/// members, and it keeps the class that the accessors' errors report.
pub proof fn lemma_unknown_job_has_no_fields(j: Json, job: Job)
    requires
        !is_known_job_class(class_of(j)),
        job_is(j, job),
    ensures
        common_of(job) is None,
        job matches Job::Unknown { class } && opt_string_view(class) == class_of(j),
{
}

// ---------------------------------------------------------------- accessors
/// `e` is the error of reading `field` from the job of unknown class `job`.
pub open spec fn unknown_job_error(job: Job, field: Seq<char>, e: ClientError) -> bool {
    &&& job matches Job::Unknown { class: c }
    &&& e matches ClientError::InvalidObjectType { object_type, field: f, variant_name }
    &&& object_type == ExpectedType::Job
    &&& f@ == field
    &&& opt_string_view(variant_name) == opt_string_view(c)
}

fn clone_opt_string(o: &Option<String>) -> (r: Option<String>)
    ensures
        opt_string_view(r) == opt_string_view(*o),
{
    match o {
        Some(s) => Some(s.clone()),
        None => None,
    }
}

impl Job {
    /// The common members, for a job of a known kind.
    pub fn common(&self) -> (r: Option<&JobCommon>)
        ensures
            match r {
                Some(c) => common_of(*self) == Some(*c),
                None => common_of(*self) is None,
            },
    {
        match self {
            Job::FreeStyleProject { common, .. } => Some(common),
            Job::WorkflowJob { common, .. } => Some(common),
            Job::MatrixProject { common, .. } => Some(common),
            Job::MatrixConfiguration { common, .. } => Some(common),
            Job::ExternalJob { common } => Some(common),
            Job::MavenModuleSet { common, .. } => Some(common),
            Job::MavenModule { common, .. } => Some(common),
            Job::Unknown { .. } => None,
        }
    }

    /// The error of reading `field` from a job of unknown kind.
    fn unknown_error(&self, field: &str) -> (e: ClientError)
        requires
            *self is Unknown,
        ensures
            unknown_job_error(*self, field@, e),
    {
        match self {
            Job::Unknown { class } => ClientError::InvalidObjectType {
                object_type: ExpectedType::Job,
                field: field.to_owned(),
                variant_name: clone_opt_string(class),
            },
            _ => ClientError::InvalidObjectType {
                object_type: ExpectedType::Job,
                field: field.to_owned(),
                variant_name: None,
            },
        }
    }

    /// The name of the job.
    pub fn name(&self) -> (r: Result<&String, ClientError>)
        ensures
            match common_of(*self) {
                Some(c) => r matches Ok(n) && n@ == c.name@,
                None => r matches Err(e) && unknown_job_error(*self, "name"@, e),
            },
    {
        match self.common() {
            Some(c) => Ok(&c.name),
            None => Err(self.unknown_error("name")),
        }
    }

    /// The URL of the job.
    pub fn url(&self) -> (r: Result<&String, ClientError>)
        ensures
            match common_of(*self) {
                Some(c) => r matches Ok(u) && u@ == c.url@,
                None => r matches Err(e) && unknown_job_error(*self, "url"@, e),
            },
    {
        match self.common() {
            Some(c) => Ok(&c.url),
            None => Err(self.unknown_error("url")),
        }
    }

    /// Whether the job can be built.
    pub fn buildable(&self) -> (r: Result<bool, ClientError>)
        ensures
            match common_of(*self) {
                Some(c) => r == Ok::<bool, ClientError>(c.buildable),
                None => r matches Err(e) && unknown_job_error(*self, "buildable"@, e),
            },
    {
        match self.common() {
            Some(c) => Ok(c.buildable),
            None => Err(self.unknown_error("buildable")),
        }
    }

    /// Link to the last build.
    pub fn last_build(&self) -> (r: Result<&Option<ShortBuild>, ClientError>)
        ensures
            match common_of(*self) {
                Some(c) => r matches Ok(b) && *b == c.last_build,
                None => r matches Err(e) && unknown_job_error(*self, "last_build"@, e),
            },
    {
        match self.common() {
            Some(c) => Ok(&c.last_build),
            None => Err(self.unknown_error("last_build")),
        }
    }

    /// Links to the builds of the job.
    pub fn builds(&self) -> (r: Result<&Vec<ShortBuild>, ClientError>)
        ensures
            match common_of(*self) {
                Some(c) => r matches Ok(b) && b@ == c.builds@,
                None => r matches Err(e) && unknown_job_error(*self, "builds"@, e),
            },
    {
        match self.common() {
            Some(c) => Ok(&c.builds),
            None => Err(self.unknown_error("builds")),
        }
    }

    /// Health reports of the job.
    pub fn health_report(&self) -> (r: Result<&Vec<HealthReport>, ClientError>)
        ensures
            match common_of(*self) {
                Some(c) => r matches Ok(h) && h@ == c.health_report@,
                None => r matches Err(e) && unknown_job_error(*self, "health_report"@, e),
            },
    {
        match self.common() {
            Some(c) => Ok(&c.health_report),
            None => Err(self.unknown_error("health_report")),
        }
    }
}

// ----------------------------------------------------------------- links
/// The bytes of a URL string.
pub open spec fn url_bytes(s: String) -> Seq<u8> {
    encode_utf8(s@)
}

impl ShortJob {
    /// The path of the full job that this link points to, read under `base`;
    /// an error where the URL does not address a job.
    pub fn job_path(&self, base: &str) -> (r: Result<Path, ClientError>)
        ensures
            match parse(url_bytes(self.url), base.spec_bytes()) {
                Some(p) => if p is Job {
                    r matches Ok(q) && q@ == p
                } else {
                    r matches Err(ClientError::InvalidUrl { url, expected }) && url@ == self.url@
                        && expected == ExpectedType::Job
                },
                None => r matches Err(ClientError::InvalidUrl { url, expected }) && url@
                    == self.url@ && expected == ExpectedType::Job,
            },
    {
        match Path::parse(self.url.as_str(), base) {
            Some(p) => match p {
                Path::Job { .. } => Ok(p),
                _ => Err(ClientError::InvalidUrl { url: self.url.clone(), expected: ExpectedType::Job }),
            },
            None => Err(ClientError::InvalidUrl { url: self.url.clone(), expected: ExpectedType::Job }),
        }
    }

    /// Fetches the full job that this link points to. The URL must address a
    /// job: otherwise the result is `InvalidUrl` and `fetch` is not called.
    /// Else `fetch` gets the job's URL under `base` and hands back its JSON.
    pub fn get_full_job<E, F: FnOnce(Vec<u8>) -> Result<Json, E>>(&self, base: &str, fetch: F) -> (r: Result<Job, FetchError<E>>)
        requires
            forall|u: Vec<u8>| fetch.requires((u,)),
        ensures
            match parse(url_bytes(self.url), base.spec_bytes()) {
                Some(p) if p is Job => match r {
                    Ok(job) => exists|u: Vec<u8>, j: Json|
                        u@ == render(p, base.spec_bytes()) && fetch.ensures((u,), Ok::<Json, E>(j))
                            && job_is(j, job),
                    Err(FetchError::Client(_)) => false,
                    Err(FetchError::Transport(e)) => exists|u: Vec<u8>|
                        u@ == render(p, base.spec_bytes()) && fetch.ensures((u,), Err::<Json, E>(e)),
                    Err(FetchError::Decode(_)) => exists|u: Vec<u8>, j: Json|
                        u@ == render(p, base.spec_bytes()) && fetch.ensures((u,), Ok::<Json, E>(j))
                            && !job_ok(j),
                },
                _ => r matches Err(FetchError::Client(ClientError::InvalidUrl { url, expected }))
                    && url@ == self.url@ && expected == ExpectedType::Job,
            },
    {
        let path = match self.job_path(base) {
            Ok(p) => p,
            Err(e) => {
                return Err(FetchError::Client(e));
            },
        };
        let url = path.render(base);
        let ghost u = url;
        let answer = fetch(url);
        match answer {
            Ok(j) => match Job::decode(&j) {
                Ok(job) => Ok(job),
                Err(e) => Err(FetchError::Decode(e)),
            },
            Err(e) => Err(FetchError::Transport(e)),
        }
    }
}

// ------------------------------------------------------------------ actions
/// The name of the top-level job that `url` addresses under `base`.
pub open spec fn top_job_name(url: String, base: Seq<u8>) -> Option<Seq<u8>> {
    match parse(url_bytes(url), base) {
        Some(PathView::Job { name, configuration }) => if configuration.len() == 0 {
            Some(name)
        } else {
            None
        },
        _ => None,
    }
}

/// `r` is the outcome of sending `post` the URL of `target` under `base`.
pub open spec fn action_sent<E, F: FnOnce(Vec<u8>) -> Result<(), E>>(
    post: F,
    target: PathView,
    base: Seq<u8>,
    r: Result<(), FetchError<E>>,
) -> bool {
    match r {
        Ok(()) => exists|u: Vec<u8>|
            u@ == render(target, base) && post.ensures((u,), Ok::<(), E>(())),
        Err(FetchError::Transport(e)) => exists|u: Vec<u8>|
            u@ == render(target, base) && post.ensures((u,), Err::<(), E>(e)),
        _ => false,
    }
}

/// The outcome of an action on `job`: it fails on a job of unknown kind and on
/// a job whose URL is not that of a top-level job; else the URL of the
/// action's path for the job's name is sent.
pub open spec fn action_outcome<E, F: FnOnce(Vec<u8>) -> Result<(), E>>(
    job: Job,
    base: Seq<u8>,
    post: F,
    target: spec_fn(Seq<u8>) -> PathView,
    r: Result<(), FetchError<E>>,
) -> bool {
    match common_of(job) {
        None => r matches Err(FetchError::Client(e)) && unknown_job_error(job, "url"@, e),
        Some(c) => match top_job_name(c.url, base) {
            None => r matches Err(FetchError::Client(ClientError::InvalidUrl { url, expected }))
                && url@ == c.url@ && expected == ExpectedType::Job,
            Some(n) => action_sent(post, target(n), base, r),
        },
    }
}

fn send<E, F: FnOnce(Vec<u8>) -> Result<(), E>>(path: &Path, base: &str, post: F) -> (r: Result<(), FetchError<E>>)
    requires
        forall|u: Vec<u8>| post.requires((u,)),
    ensures
        action_sent(post, path@, base.spec_bytes(), r),
{
    let url = path.render(base);
    let ghost u = url;
    let answer = post(url);
    match answer {
        Ok(unit) => {
            assert(answer == Ok::<(), E>(unit));
            Ok(unit)
        },
        Err(e) => Err(FetchError::Transport(e)),
    }
}

impl Job {
    /// The name of this job, read from its URL, which must address a top-level job.
    fn top_name(&self, base: &str) -> (r: Result<Name, ClientError>)
        ensures
            match common_of(*self) {
                None => r matches Err(e) && unknown_job_error(*self, "url"@, e),
                Some(c) => match top_job_name(c.url, base.spec_bytes()) {
                    None => r matches Err(ClientError::InvalidUrl { url, expected }) && url@
                        == c.url@ && expected == ExpectedType::Job,
                    Some(n) => r matches Ok(m) && m@ == n,
                },
            },
    {
        let url = self.url()?;
        match Path::parse(url.as_str(), base) {
            Some(Path::Job { name, configuration }) => if configuration.len() == 0 {
                Ok(name)
            } else {
                Err(ClientError::InvalidUrl { url: url.clone(), expected: ExpectedType::Job })
            },
            _ => Err(ClientError::InvalidUrl { url: url.clone(), expected: ExpectedType::Job }),
        }
    }

    /// Enables the job: sends `post` the job's enable URL under `base`.
    pub fn enable<E, F: FnOnce(Vec<u8>) -> Result<(), E>>(&self, base: &str, post: F) -> (r: Result<(), FetchError<E>>)
        requires
            forall|u: Vec<u8>| post.requires((u,)),
        ensures
            action_outcome(*self, base.spec_bytes(), post, |n: Seq<u8>| PathView::JobEnable { name: n }, r),
    {
        match self.top_name(base) {
            Ok(name) => send(&Path::JobEnable { name }, base, post),
            Err(e) => Err(FetchError::Client(e)),
        }
    }

    /// Disables the job: sends `post` the job's disable URL under `base`.
    pub fn disable<E, F: FnOnce(Vec<u8>) -> Result<(), E>>(&self, base: &str, post: F) -> (r: Result<(), FetchError<E>>)
        requires
            forall|u: Vec<u8>| post.requires((u,)),
        ensures
            action_outcome(*self, base.spec_bytes(), post, |n: Seq<u8>| PathView::JobDisable { name: n }, r),
    {
        match self.top_name(base) {
            Ok(name) => send(&Path::JobDisable { name }, base, post),
            Err(e) => Err(FetchError::Client(e)),
        }
    }

    /// Asks the server to poll the job's SCM.
    pub fn poll_scm<E, F: FnOnce(Vec<u8>) -> Result<(), E>>(&self, base: &str, post: F) -> (r: Result<(), FetchError<E>>)
        requires
            forall|u: Vec<u8>| post.requires((u,)),
        ensures
            action_outcome(*self, base.spec_bytes(), post, |n: Seq<u8>| PathView::PollSCMJob { name: n }, r),
    {
        match self.top_name(base) {
            Ok(name) => send(&Path::PollSCMJob { name }, base, post),
            Err(e) => Err(FetchError::Client(e)),
        }
    }

    /// Adds the job to the view named `view_name`.
    pub fn add_to_view<E, F: FnOnce(Vec<u8>) -> Result<(), E>>(&self, base: &str, view_name: &str, post: F) -> (r: Result<(), FetchError<E>>)
        requires
            forall|u: Vec<u8>| post.requires((u,)),
        ensures
            action_outcome(
                *self,
                base.spec_bytes(),
                post,
                |n: Seq<u8>| PathView::AddJobToView { job_name: n, view_name: view_name.spec_bytes() },
                r,
            ),
    {
        match self.top_name(base) {
            Ok(name) => send(&Path::AddJobToView { job_name: name, view_name: Name::new(view_name) }, base, post),
            Err(e) => Err(FetchError::Client(e)),
        }
    }

    /// Removes the job from the view named `view_name`.
    pub fn remove_from_view<E, F: FnOnce(Vec<u8>) -> Result<(), E>>(&self, base: &str, view_name: &str, post: F) -> (r: Result<(), FetchError<E>>)
        requires
            forall|u: Vec<u8>| post.requires((u,)),
        ensures
            action_outcome(
                *self,
                base.spec_bytes(),
                post,
                |n: Seq<u8>| PathView::RemoveJobFromView { job_name: n, view_name: view_name.spec_bytes() },
                r,
            ),
    {
        match self.top_name(base) {
            Ok(name) => send(&Path::RemoveJobFromView { job_name: name, view_name: Name::new(view_name) }, base, post),
            Err(e) => Err(FetchError::Client(e)),
        }
    }
}

} // verus!
