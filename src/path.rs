//! Typed resource paths and their URL grammar.
//!
//! A URL is read relative to the server's base URL, split at the first `?`
//! into a path and a query, and the path into `/`-separated segments (one
//! empty segment at either end is ignored). The segments are then matched
//! against these templates, where `{n}` is a percent-encoded name:
//!
//! | resource | segments |
//! |---|---|
//! | root | (none) |
//! | job | `job/{n}(/job/{n})*` |
//! | enable, disable, poll SCM | `job/{n}/enable`, `job/{n}/disable`, `job/{n}/polling` |
//! | view | `view/{n}` |
//! | add to / remove from view | `view/{n}/addJobToView?name={n}`, `view/{n}/removeJobFromView?name={n}` |
//! | build | `job/{n}(/job/{n})*/{number or alias}` |
//! | console text | `job/{n}(/job/{n})*/{number or alias}/consoleText` |
//! | maven artifacts | `job/{n}(/job/{n})*/{number or alias}/mavenArtifacts` |
//! | queue | `queue` |
//! | queue item | `queue/item/{id}` |

use vstd::prelude::*;
use vstd::slice::slice_to_vec;
use vstd::string::StringSliceAdditionalSpecFns;
use crate::encoding::{decode, encode, encode_into, is_encoded_byte, lemma_decode_encode, lemma_encode_bytes};
use crate::number::{all_digits, is_digit, lemma_numeral, numeral, parse_number, push_numeral};

verus! {

// ---------------------------------------------------------------- keywords
pub open spec fn kw_job() -> Seq<u8> {
    seq![106u8, 111u8, 98u8]
}

pub open spec fn kw_view() -> Seq<u8> {
    seq![118u8, 105u8, 101u8, 119u8]
}

pub open spec fn kw_queue() -> Seq<u8> {
    seq![113u8, 117u8, 101u8, 117u8, 101u8]
}

pub open spec fn kw_item() -> Seq<u8> {
    seq![105u8, 116u8, 101u8, 109u8]
}

pub open spec fn kw_enable() -> Seq<u8> {
    seq![101u8, 110u8, 97u8, 98u8, 108u8, 101u8]
}

pub open spec fn kw_disable() -> Seq<u8> {
    seq![100u8, 105u8, 115u8, 97u8, 98u8, 108u8, 101u8]
}

pub open spec fn kw_polling() -> Seq<u8> {
    seq![112u8, 111u8, 108u8, 108u8, 105u8, 110u8, 103u8]
}

pub open spec fn kw_add_job() -> Seq<u8> {
    seq![97u8, 100u8, 100u8, 74u8, 111u8, 98u8, 84u8, 111u8, 86u8, 105u8, 101u8, 119u8]
}

pub open spec fn kw_remove_job() -> Seq<u8> {
    seq![
        114u8, 101u8, 109u8, 111u8, 118u8, 101u8, 74u8, 111u8, 98u8, 70u8, 114u8, 111u8, 109u8,
        86u8, 105u8, 101u8, 119u8,
    ]
}

pub open spec fn kw_console() -> Seq<u8> {
    seq![99u8, 111u8, 110u8, 115u8, 111u8, 108u8, 101u8, 84u8, 101u8, 120u8, 116u8]
}

pub open spec fn kw_maven() -> Seq<u8> {
    seq![
        109u8, 97u8, 118u8, 101u8, 110u8, 65u8, 114u8, 116u8, 105u8, 102u8, 97u8, 99u8, 116u8,
        115u8,
    ]
}

/// `name=`, the query that names the job in view membership changes.
pub open spec fn kw_name_param() -> Seq<u8> {
    seq![110u8, 97u8, 109u8, 101u8, 61u8]
}

pub open spec fn kw_last_build() -> Seq<u8> {
    seq![108u8, 97u8, 115u8, 116u8, 66u8, 117u8, 105u8, 108u8, 100u8]
}

pub open spec fn kw_last_stable() -> Seq<u8> {
    seq![
        108u8, 97u8, 115u8, 116u8, 83u8, 116u8, 97u8, 98u8, 108u8, 101u8, 66u8, 117u8, 105u8,
        108u8, 100u8,
    ]
}

pub open spec fn kw_last_successful() -> Seq<u8> {
    seq![
        108u8, 97u8, 115u8, 116u8, 83u8, 117u8, 99u8, 99u8, 101u8, 115u8, 115u8, 102u8, 117u8,
        108u8, 66u8, 117u8, 105u8, 108u8, 100u8,
    ]
}

pub open spec fn kw_last_failed() -> Seq<u8> {
    seq![
        108u8, 97u8, 115u8, 116u8, 70u8, 97u8, 105u8, 108u8, 101u8, 100u8, 66u8, 117u8, 105u8,
        108u8, 100u8,
    ]
}

pub open spec fn kw_last_unstable() -> Seq<u8> {
    seq![
        108u8, 97u8, 115u8, 116u8, 85u8, 110u8, 115u8, 116u8, 97u8, 98u8, 108u8, 101u8, 66u8,
        117u8, 105u8, 108u8, 100u8,
    ]
}

pub open spec fn kw_last_unsuccessful() -> Seq<u8> {
    seq![
        108u8, 97u8, 115u8, 116u8, 85u8, 110u8, 115u8, 117u8, 99u8, 99u8, 101u8, 115u8, 115u8,
        102u8, 117u8, 108u8, 66u8, 117u8, 105u8, 108u8, 100u8,
    ]
}

pub open spec fn kw_last_completed() -> Seq<u8> {
    seq![
        108u8, 97u8, 115u8, 116u8, 67u8, 111u8, 109u8, 112u8, 108u8, 101u8, 116u8, 101u8, 100u8,
        66u8, 117u8, 105u8, 108u8, 100u8,
    ]
}

pub open spec fn kw_first_build() -> Seq<u8> {
    seq![102u8, 105u8, 114u8, 115u8, 116u8, 66u8, 117u8, 105u8, 108u8, 100u8]
}

pub const SLASH: u8 = 47;

pub const QUESTION: u8 = 63;

// ------------------------------------------------------------------- types
/// A resource name in its display form, held as UTF-8 bytes. In a URL it
/// stands percent-encoded.
#[derive(Debug, Clone, PartialEq, Eq)]
pub struct Name {
    pub bytes: Vec<u8>,
}

impl View for Name {
    type V = Seq<u8>;

    open spec fn view(&self) -> Seq<u8> {
        self.bytes@
    }
}

impl Name {
    /// A name given in its display form.
    pub fn new(display: &str) -> (r: Name)
        ensures
            r@ == display.spec_bytes(),
    {
        Name { bytes: slice_to_vec(display.as_bytes()) }
    }

    /// A name given as it stands in a URL segment, percent-encoded.
    pub fn from_encoded(segment: &str) -> (r: Name)
        ensures
            r@ == decode(segment.spec_bytes()),
    {
        Name { bytes: crate::encoding::decode_name(segment.as_bytes()) }
    }

    /// The URL segment of this name.
    pub fn encoded(&self) -> (r: Vec<u8>)
        ensures
            r@ == encode(self@),
    {
        crate::encoding::encode_name(self.bytes.as_slice())
    }

    /// Names of resources are never empty.
    pub open spec fn wf(&self) -> bool {
        self@.len() > 0
    }
}

/// Which build of a job: a number, or one of the server's aliases.
#[derive(Debug, Clone, Copy, PartialEq, Eq, Structural)]
pub enum BuildSelector {
    Number(u64),
    LastBuild,
    LastStableBuild,
    LastSuccessfulBuild,
    LastFailedBuild,
    LastUnstableBuild,
    LastUnsuccessfulBuild,
    LastCompletedBuild,
    FirstBuild,
}

/// A routable resource of the server.
#[derive(Debug, Clone, PartialEq, Eq)]
pub enum Path {
    Home,
    /// A job, and the chain of sub-jobs (matrix configurations, folders) below it.
    Job { name: Name, configuration: Vec<Name> },
    JobEnable { name: Name },
    JobDisable { name: Name },
    PollSCMJob { name: Name },
    View { name: Name },
    AddJobToView { job_name: Name, view_name: Name },
    RemoveJobFromView { job_name: Name, view_name: Name },
    Build { job_name: Name, configuration: Vec<Name>, number: BuildSelector },
    ConsoleText { job_name: Name, configuration: Vec<Name>, number: BuildSelector },
    MavenArtifactRecord { job_name: Name, configuration: Vec<Name>, number: BuildSelector },
    Queue,
    QueueItem { id: u64 },
}

/// The mathematical form of a `Path`: names as byte strings.
pub enum PathView {
    Home,
    Job { name: Seq<u8>, configuration: Seq<Seq<u8>> },
    JobEnable { name: Seq<u8> },
    JobDisable { name: Seq<u8> },
    PollSCMJob { name: Seq<u8> },
    View { name: Seq<u8> },
    AddJobToView { job_name: Seq<u8>, view_name: Seq<u8> },
    RemoveJobFromView { job_name: Seq<u8>, view_name: Seq<u8> },
    Build { job_name: Seq<u8>, configuration: Seq<Seq<u8>>, number: BuildSelector },
    ConsoleText { job_name: Seq<u8>, configuration: Seq<Seq<u8>>, number: BuildSelector },
    MavenArtifactRecord { job_name: Seq<u8>, configuration: Seq<Seq<u8>>, number: BuildSelector },
    Queue,
    QueueItem { id: u64 },
}

pub open spec fn names_view(v: Seq<Name>) -> Seq<Seq<u8>> {
    v.map_values(|n: Name| n@)
}

impl View for Path {
    type V = PathView;

    open spec fn view(&self) -> PathView {
        match self {
            Path::Home => PathView::Home,
            Path::Job { name, configuration } => PathView::Job {
                name: name@,
                configuration: names_view(configuration@),
            },
            Path::JobEnable { name } => PathView::JobEnable { name: name@ },
            Path::JobDisable { name } => PathView::JobDisable { name: name@ },
            Path::PollSCMJob { name } => PathView::PollSCMJob { name: name@ },
            Path::View { name } => PathView::View { name: name@ },
            Path::AddJobToView { job_name, view_name } => PathView::AddJobToView {
                job_name: job_name@,
                view_name: view_name@,
            },
            Path::RemoveJobFromView { job_name, view_name } => PathView::RemoveJobFromView {
                job_name: job_name@,
                view_name: view_name@,
            },
            Path::Build { job_name, configuration, number } => PathView::Build {
                job_name: job_name@,
                configuration: names_view(configuration@),
                number: *number,
            },
            Path::ConsoleText { job_name, configuration, number } => PathView::ConsoleText {
                job_name: job_name@,
                configuration: names_view(configuration@),
                number: *number,
            },
            Path::MavenArtifactRecord { job_name, configuration, number } =>
                PathView::MavenArtifactRecord {
                job_name: job_name@,
                configuration: names_view(configuration@),
                number: *number,
            },
            Path::Queue => PathView::Queue,
            Path::QueueItem { id } => PathView::QueueItem { id: *id },
        }
    }
}

pub open spec fn names_wf(v: Seq<Seq<u8>>) -> bool {
    forall|i: int| 0 <= i < v.len() ==> (#[trigger] v[i]).len() > 0
}

impl PathView {
    /// Every name in the path is non-empty.
    pub open spec fn wf(self) -> bool {
        match self {
            PathView::Job { name, configuration } => name.len() > 0 && names_wf(configuration),
            PathView::JobEnable { name } => name.len() > 0,
            PathView::JobDisable { name } => name.len() > 0,
            PathView::PollSCMJob { name } => name.len() > 0,
            PathView::View { name } => name.len() > 0,
            PathView::AddJobToView { job_name, view_name } => job_name.len() > 0
                && view_name.len() > 0,
            PathView::RemoveJobFromView { job_name, view_name } => job_name.len() > 0
                && view_name.len() > 0,
            PathView::Build { job_name, configuration, .. } => job_name.len() > 0 && names_wf(
                configuration,
            ),
            PathView::ConsoleText { job_name, configuration, .. } => job_name.len() > 0
                && names_wf(configuration),
            PathView::MavenArtifactRecord { job_name, configuration, .. } => job_name.len() > 0
                && names_wf(configuration),
            _ => true,
        }
    }
}

// --------------------------------------------------------------- rendering
pub open spec fn selector_segment(s: BuildSelector) -> Seq<u8> {
    match s {
        BuildSelector::Number(n) => numeral(n as nat),
        BuildSelector::LastBuild => kw_last_build(),
        BuildSelector::LastStableBuild => kw_last_stable(),
        BuildSelector::LastSuccessfulBuild => kw_last_successful(),
        BuildSelector::LastFailedBuild => kw_last_failed(),
        BuildSelector::LastUnstableBuild => kw_last_unstable(),
        BuildSelector::LastUnsuccessfulBuild => kw_last_unsuccessful(),
        BuildSelector::LastCompletedBuild => kw_last_completed(),
        BuildSelector::FirstBuild => kw_first_build(),
    }
}

/// `job/{n}` for each name of the chain.
pub open spec fn job_segments(chain: Seq<Seq<u8>>) -> Seq<Seq<u8>>
    decreases chain.len(),
{
    if chain.len() == 0 {
        seq![]
    } else {
        seq![kw_job(), encode(chain[0])] + job_segments(chain.drop_first())
    }
}

/// The segments of a path's URL.
pub open spec fn path_segments(p: PathView) -> Seq<Seq<u8>> {
    match p {
        PathView::Home => seq![],
        PathView::Job { name, configuration } => job_segments(seq![name] + configuration),
        PathView::JobEnable { name } => job_segments(seq![name]).push(kw_enable()),
        PathView::JobDisable { name } => job_segments(seq![name]).push(kw_disable()),
        PathView::PollSCMJob { name } => job_segments(seq![name]).push(kw_polling()),
        PathView::View { name } => seq![kw_view(), encode(name)],
        PathView::AddJobToView { view_name, .. } => seq![
            kw_view(),
            encode(view_name),
            kw_add_job(),
        ],
        PathView::RemoveJobFromView { view_name, .. } => seq![
            kw_view(),
            encode(view_name),
            kw_remove_job(),
        ],
        PathView::Build { job_name, configuration, number } => job_segments(
            seq![job_name] + configuration,
        ).push(selector_segment(number)),
        PathView::ConsoleText { job_name, configuration, number } => job_segments(
            seq![job_name] + configuration,
        ) + seq![selector_segment(number), kw_console()],
        PathView::MavenArtifactRecord { job_name, configuration, number } => job_segments(
            seq![job_name] + configuration,
        ) + seq![selector_segment(number), kw_maven()],
        PathView::Queue => seq![kw_queue()],
        PathView::QueueItem { id } => seq![kw_queue(), kw_item(), numeral(id as nat)],
    }
}

/// The query of a path's URL, if it has one.
pub open spec fn path_query(p: PathView) -> Option<Seq<u8>> {
    match p {
        PathView::AddJobToView { job_name, .. } => Some(kw_name_param() + encode(job_name)),
        PathView::RemoveJobFromView { job_name, .. } => Some(kw_name_param() + encode(job_name)),
        _ => None,
    }
}

/// `/s1/s2/.../sn`.
pub open spec fn join(segs: Seq<Seq<u8>>) -> Seq<u8>
    decreases segs.len(),
{
    if segs.len() == 0 {
        seq![]
    } else {
        join(segs.drop_last()).push(SLASH) + segs.last()
    }
}

/// A path's URL relative to the server's base URL.
pub open spec fn render_relative(p: PathView) -> Seq<u8> {
    if p is Home {
        seq![SLASH]
    } else {
        let body = join(path_segments(p));
        match path_query(p) {
            Some(q) => body.push(QUESTION) + q,
            None => body,
        }
    }
}

/// A path's absolute URL under the server's base URL.
pub open spec fn render(p: PathView, base: Seq<u8>) -> Seq<u8> {
    base + render_relative(p)
}

// ----------------------------------------------------------------- parsing
/// Index of the first `b` in `s`, or `s.len()` if there is none.
pub open spec fn find_byte(s: Seq<u8>, b: u8) -> nat
    decreases s.len(),
{
    if s.len() == 0 {
        0
    } else if s[0] == b {
        0
    } else {
        1 + find_byte(s.drop_first(), b)
    }
}

/// `url` relative to `base`: with the base cut off where it is a prefix.
pub open spec fn strip_base(url: Seq<u8>, base: Seq<u8>) -> Seq<u8> {
    if base.len() <= url.len() && url.subrange(0, base.len() as int) == base {
        url.subrange(base.len() as int, url.len() as int)
    } else {
        url
    }
}

/// What stands before the first `?`.
pub open spec fn before_query(s: Seq<u8>) -> Seq<u8> {
    s.subrange(0, find_byte(s, QUESTION) as int)
}

/// What stands after the first `?`, if there is one.
pub open spec fn query_of(s: Seq<u8>) -> Option<Seq<u8>> {
    let q = find_byte(s, QUESTION);
    if q < s.len() {
        Some(s.subrange(q + 1 as int, s.len() as int))
    } else {
        None
    }
}

/// The `/`-separated pieces of `s` (always at least one).
pub open spec fn split(s: Seq<u8>) -> Seq<Seq<u8>>
    decreases s.len(),
{
    if s.len() == 0 {
        seq![seq![]]
    } else {
        let init = split(s.drop_last());
        if s.last() == SLASH {
            init.push(seq![])
        } else {
            init.update(init.len() - 1, init.last().push(s.last()))
        }
    }
}

/// The segments without one empty segment at either end.
pub open spec fn trim(segs: Seq<Seq<u8>>) -> Seq<Seq<u8>> {
    let a = if segs.len() > 0 && segs[0].len() == 0 {
        segs.drop_first()
    } else {
        segs
    };
    if a.len() > 0 && a.last().len() == 0 {
        a.drop_last()
    } else {
        a
    }
}

/// A build selector segment: a number or an alias.
pub open spec fn parse_selector(s: Seq<u8>) -> Option<BuildSelector> {
    match parse_number(s) {
        Some(n) => Some(BuildSelector::Number(n)),
        None => if s == kw_last_build() {
            Some(BuildSelector::LastBuild)
        } else if s == kw_last_stable() {
            Some(BuildSelector::LastStableBuild)
        } else if s == kw_last_successful() {
            Some(BuildSelector::LastSuccessfulBuild)
        } else if s == kw_last_failed() {
            Some(BuildSelector::LastFailedBuild)
        } else if s == kw_last_unstable() {
            Some(BuildSelector::LastUnstableBuild)
        } else if s == kw_last_unsuccessful() {
            Some(BuildSelector::LastUnsuccessfulBuild)
        } else if s == kw_last_completed() {
            Some(BuildSelector::LastCompletedBuild)
        } else if s == kw_first_build() {
            Some(BuildSelector::FirstBuild)
        } else {
            None
        },
    }
}

/// What follows the chain of job names.
pub open spec fn classify_job_tail(chain: Seq<Seq<u8>>, rest: Seq<Seq<u8>>) -> Option<PathView> {
    let name = chain[0];
    let configuration = chain.drop_first();
    if rest.len() == 0 {
        Some(PathView::Job { name, configuration })
    } else if rest.len() == 1 && chain.len() == 1 && rest[0] == kw_enable() {
        Some(PathView::JobEnable { name })
    } else if rest.len() == 1 && chain.len() == 1 && rest[0] == kw_disable() {
        Some(PathView::JobDisable { name })
    } else if rest.len() == 1 && chain.len() == 1 && rest[0] == kw_polling() {
        Some(PathView::PollSCMJob { name })
    } else {
        match parse_selector(rest[0]) {
            Some(number) => if rest.len() == 1 {
                Some(PathView::Build { job_name: name, configuration, number })
            } else if rest.len() == 2 && rest[1] == kw_console() {
                Some(PathView::ConsoleText { job_name: name, configuration, number })
            } else if rest.len() == 2 && rest[1] == kw_maven() {
                Some(PathView::MavenArtifactRecord { job_name: name, configuration, number })
            } else {
                None
            },
            None => None,
        }
    }
}

/// Reads `job/{n}` pairs onto the chain, then what follows them.
pub open spec fn classify_job(chain: Seq<Seq<u8>>, rest: Seq<Seq<u8>>) -> Option<PathView>
    decreases rest.len(),
{
    if rest.len() >= 2 && rest[0] == kw_job() {
        classify_job(chain.push(decode(rest[1])), rest.subrange(2, rest.len() as int))
    } else {
        classify_job_tail(chain, rest)
    }
}

/// The job named by a `name=` query.
pub open spec fn name_param(query: Option<Seq<u8>>) -> Option<Seq<u8>> {
    match query {
        Some(q) => if q.len() >= 5 && q.subrange(0, 5) == kw_name_param() {
            Some(decode(q.subrange(5, q.len() as int)))
        } else {
            None
        },
        None => None,
    }
}

/// The path that segments and query spell, if any.
pub open spec fn classify(segs: Seq<Seq<u8>>, query: Option<Seq<u8>>) -> Option<PathView> {
    if segs.len() == 0 {
        Some(PathView::Home)
    } else if segs[0] == kw_queue() {
        if segs.len() == 1 {
            Some(PathView::Queue)
        } else if segs.len() == 3 && segs[1] == kw_item() && parse_number(segs[2]) is Some {
            Some(PathView::QueueItem { id: parse_number(segs[2])->0 })
        } else {
            None
        }
    } else if segs[0] == kw_view() && segs.len() >= 2 {
        let view_name = decode(segs[1]);
        if segs.len() == 2 {
            Some(PathView::View { name: view_name })
        } else if segs.len() == 3 && segs[2] == kw_add_job() && name_param(query) is Some {
            Some(PathView::AddJobToView { job_name: name_param(query)->0, view_name })
        } else if segs.len() == 3 && segs[2] == kw_remove_job() && name_param(query) is Some {
            Some(PathView::RemoveJobFromView { job_name: name_param(query)->0, view_name })
        } else {
            None
        }
    } else if segs[0] == kw_job() && segs.len() >= 2 {
        classify_job(seq![decode(segs[1])], segs.subrange(2, segs.len() as int))
    } else {
        None
    }
}

/// The path that `url` addresses under `base`, if it matches a template.
pub open spec fn parse(url: Seq<u8>, base: Seq<u8>) -> Option<PathView> {
    let rel = strip_base(url, base);
    classify(trim(split(before_query(rel))), query_of(rel))
}

// ------------------------------------------------------------------ proofs
/// A segment that holds neither `/` nor `?`.
pub open spec fn plain(s: Seq<u8>) -> bool {
    forall|k: int| 0 <= k < s.len() ==> #[trigger] s[k] != SLASH && s[k] != QUESTION
}

pub open spec fn all_plain(segs: Seq<Seq<u8>>) -> bool {
    forall|i: int| 0 <= i < segs.len() ==> plain(#[trigger] segs[i]) && segs[i].len() > 0
}

proof fn lemma_split_append(x: Seq<u8>, s: Seq<u8>)
    requires
        plain(s),
    ensures
        split(x.push(SLASH) + s) == split(x).push(s),
    decreases s.len(),
{
    let y = x.push(SLASH) + s;
    if s.len() == 0 {
        assert(y =~= x.push(SLASH));
        assert(y.drop_last() =~= x);
        assert(s =~= Seq::<u8>::empty());
        assert(y.last() == SLASH);
    } else {
        assert(y.drop_last() =~= x.push(SLASH) + s.drop_last());
        lemma_split_append(x, s.drop_last());
        assert(s.drop_last().push(s.last()) =~= s);
        assert(split(y) =~= split(x).push(s));
    }
}

proof fn lemma_split_join(segs: Seq<Seq<u8>>)
    requires
        all_plain(segs),
    ensures
        split(join(segs)) == seq![Seq::<u8>::empty()] + segs,
    decreases segs.len(),
{
    if segs.len() == 0 {
        assert(seq![Seq::<u8>::empty()] + segs =~= seq![Seq::<u8>::empty()]);
    } else {
        let init = segs.drop_last();
        assert(all_plain(init)) by {
            assert forall|i: int| 0 <= i < init.len() implies plain(#[trigger] init[i])
                && init[i].len() > 0 by {
                assert(init[i] == segs[i]);
            }
        }
        lemma_split_join(init);
        assert(plain(segs[segs.len() - 1]));
        lemma_split_append(join(init), segs.last());
        assert(seq![Seq::<u8>::empty()] + segs =~= (seq![Seq::<u8>::empty()] + init).push(
            segs.last(),
        ));
    }
}

proof fn lemma_join_plain(segs: Seq<Seq<u8>>)
    requires
        all_plain(segs),
    ensures
        forall|k: int| 0 <= k < join(segs).len() ==> #[trigger] join(segs)[k] != QUESTION,
    decreases segs.len(),
{
    if segs.len() > 0 {
        let init = segs.drop_last();
        assert(all_plain(init)) by {
            assert forall|i: int| 0 <= i < init.len() implies plain(#[trigger] init[i])
                && init[i].len() > 0 by {
                assert(init[i] == segs[i]);
            }
        }
        lemma_join_plain(init);
        let j = join(segs);
        let a = join(init).push(SLASH);
        assert(plain(segs[segs.len() - 1]));
        assert forall|k: int| 0 <= k < j.len() implies #[trigger] j[k] != QUESTION by {
            if k < a.len() {
                assert(j[k] == a[k]);
                if k < join(init).len() {
                    assert(a[k] == join(init)[k]);
                }
            } else {
                assert(j[k] == segs.last()[k - a.len()]);
            }
        }
    }
}

proof fn lemma_find_prefix(a: Seq<u8>, t: Seq<u8>, b: u8)
    requires
        forall|k: int| 0 <= k < a.len() ==> #[trigger] a[k] != b,
    ensures
        find_byte(a + t, b) == a.len() + find_byte(t, b),
    decreases a.len(),
{
    if a.len() > 0 {
        assert((a + t).drop_first() =~= a.drop_first() + t);
        assert((a + t)[0] == a[0]);
        lemma_find_prefix(a.drop_first(), t, b);
    } else {
        assert(a + t =~= t);
    }
}

proof fn lemma_relative_split(p: PathView)
    requires
        all_plain(path_segments(p)),
        !(p is Home),
    ensures
        before_query(render_relative(p)) == join(path_segments(p)),
        query_of(render_relative(p)) == path_query(p),
{
    let body = join(path_segments(p));
    let rel = render_relative(p);
    lemma_join_plain(path_segments(p));
    match path_query(p) {
        Some(q) => {
            assert(rel =~= body + (seq![QUESTION] + q));
            lemma_find_prefix(body, seq![QUESTION] + q, QUESTION);
            assert(find_byte(seq![QUESTION] + q, QUESTION) == 0);
            assert(rel.subrange(0, body.len() as int) =~= body);
            assert(rel.subrange(body.len() + 1 as int, rel.len() as int) =~= q);
        },
        None => {
            assert(rel =~= body + Seq::<u8>::empty());
            lemma_find_prefix(body, Seq::<u8>::empty(), QUESTION);
            assert(rel.subrange(0, body.len() as int) =~= body);
        },
    }
}

proof fn lemma_digits_not_keyword(s: Seq<u8>, kw: Seq<u8>)
    requires
        all_digits(s),
        kw.len() > 0,
        !is_digit(kw[0]),
    ensures
        s != kw,
{
    assert(is_digit(s[0]));
}

proof fn lemma_selector_round_trip(sel: BuildSelector)
    ensures
        parse_selector(selector_segment(sel)) == Some(sel),
        selector_segment(sel).len() > 0,
        plain(selector_segment(sel)),
        selector_segment(sel) != kw_job(),
        selector_segment(sel) != kw_enable(),
        selector_segment(sel) != kw_disable(),
        selector_segment(sel) != kw_polling(),
{
    let s = selector_segment(sel);
    match sel {
        BuildSelector::Number(n) => {
            lemma_numeral(n as nat);
            lemma_digits_not_keyword(s, kw_job());
            lemma_digits_not_keyword(s, kw_enable());
            lemma_digits_not_keyword(s, kw_disable());
            lemma_digits_not_keyword(s, kw_polling());
            assert forall|k: int| 0 <= k < s.len() implies #[trigger] s[k] != SLASH && s[k]
                != QUESTION by {
                assert(is_digit(s[k]));
            }
        },
        _ => {
            assert(!is_digit(s[0]));
            assert(!all_digits(s));
            assert(kw_last_stable()[4] != kw_last_failed()[4]);
        },
    }
}

proof fn lemma_encode_plain(n: Seq<u8>)
    requires
        n.len() > 0,
    ensures
        plain(encode(n)),
        encode(n).len() > 0,
        decode(encode(n)) == n,
{
    lemma_encode_bytes(n);
    lemma_decode_encode(n);
    let e = encode(n);
    assert forall|k: int| 0 <= k < e.len() implies #[trigger] e[k] != SLASH && e[k]
        != QUESTION by {
        assert(is_encoded_byte(e[k]));
    }
}

proof fn lemma_job_segments_plain(chain: Seq<Seq<u8>>)
    requires
        names_wf(chain),
    ensures
        all_plain(job_segments(chain)),
        job_segments(chain).len() == 2 * chain.len(),
    decreases chain.len(),
{
    if chain.len() > 0 {
        let rest = chain.drop_first();
        assert(names_wf(rest)) by {
            assert forall|i: int| 0 <= i < rest.len() implies (#[trigger] rest[i]).len() > 0 by {
                assert(rest[i] == chain[i + 1]);
            }
        }
        lemma_job_segments_plain(rest);
        assert(chain[0].len() > 0);
        lemma_encode_plain(chain[0]);
        let h = seq![kw_job(), encode(chain[0])];
        let t = job_segments(rest);
        let j = job_segments(chain);
        assert forall|i: int| 0 <= i < j.len() implies plain(#[trigger] j[i]) && j[i].len() > 0 by {
            if i >= 2 {
                assert(j[i] == t[i - 2]);
            }
        }
    }
}

proof fn lemma_classify_job(chain: Seq<Seq<u8>>, cs: Seq<Seq<u8>>, tail: Seq<Seq<u8>>)
    requires
        chain.len() > 0,
        names_wf(cs),
        tail.len() == 0 || tail[0] != kw_job(),
    ensures
        classify_job(chain, job_segments(cs) + tail) == classify_job_tail(chain + cs, tail),
    decreases cs.len(),
{
    if cs.len() == 0 {
        assert(job_segments(cs) + tail =~= tail);
        assert(chain + cs =~= chain);
    } else {
        let rest = job_segments(cs) + tail;
        let more = cs.drop_first();
        assert(names_wf(more)) by {
            assert forall|i: int| 0 <= i < more.len() implies (#[trigger] more[i]).len() > 0 by {
                assert(more[i] == cs[i + 1]);
            }
        }
        assert(cs[0].len() > 0);
        lemma_decode_encode(cs[0]);
        assert(rest[0] == kw_job());
        assert(rest[1] == encode(cs[0]));
        assert(rest.subrange(2, rest.len() as int) =~= job_segments(more) + tail);
        lemma_classify_job(chain.push(cs[0]), more, tail);
        assert(chain.push(cs[0]) + more =~= chain + cs);
    }
}

proof fn lemma_job_prefix(name: Seq<u8>, conf: Seq<Seq<u8>>, tail: Seq<Seq<u8>>)
    requires
        name.len() > 0,
        names_wf(conf),
        tail.len() == 0 || tail[0] != kw_job(),
    ensures
        ({
            let segs = job_segments(seq![name] + conf) + tail;
            &&& segs.len() >= 2
            &&& segs[0] == kw_job()
            &&& classify(segs, None) == classify_job_tail(seq![name] + conf, tail)
            &&& classify(segs, None) == classify(segs, Some(Seq::<u8>::empty()))
        }),
{
    let chain = seq![name] + conf;
    assert(chain[0] == name);
    assert(chain.drop_first() =~= conf);
    let segs = job_segments(chain) + tail;
    lemma_encode_plain(name);
    assert(segs[0] == kw_job());
    assert(segs[1] == encode(name));
    assert(segs.subrange(2, segs.len() as int) =~= job_segments(conf) + tail);
    lemma_classify_job(seq![name], conf, tail);
    assert(kw_job() != kw_queue());
    assert(kw_job() != kw_view());
}

proof fn lemma_job_family_segments(p: PathView)
    requires
        p.wf(),
        p is Job || p is JobEnable || p is JobDisable || p is PollSCMJob,
    ensures
        all_plain(path_segments(p)),
        path_segments(p).len() > 0 || p is Home,
        classify(path_segments(p), path_query(p)) == Some(p),
{
    let segs = path_segments(p);
    assert(kw_job() != kw_queue());
    assert(kw_job() != kw_view());
    assert(kw_view() != kw_queue());
    match p {
        PathView::Job { name, configuration } => {
            lemma_job_segments_plain(seq![name] + configuration);
            lemma_job_prefix(name, configuration, seq![]);
            assert(job_segments(seq![name] + configuration) + seq![] =~= segs);
            assert((seq![name] + configuration).drop_first() =~= configuration);
        },
        PathView::JobEnable { name } => {
            lemma_job_segments_plain(seq![name]);
            lemma_job_prefix(name, seq![], seq![kw_enable()]);
            assert(job_segments(seq![name] + Seq::<Seq<u8>>::empty()) + seq![kw_enable()] =~= segs);
        },
        PathView::JobDisable { name } => {
            lemma_job_segments_plain(seq![name]);
            lemma_job_prefix(name, seq![], seq![kw_disable()]);
            assert(job_segments(seq![name] + Seq::<Seq<u8>>::empty()) + seq![kw_disable()] =~= segs);
        },
        PathView::PollSCMJob { name } => {
            lemma_job_segments_plain(seq![name]);
            lemma_job_prefix(name, seq![], seq![kw_polling()]);
            assert(job_segments(seq![name] + Seq::<Seq<u8>>::empty()) + seq![kw_polling()] =~= segs);
            assert(kw_polling()[0] != kw_disable()[0]);
        },
        _ => {},
    }
}

proof fn lemma_view_segments(p: PathView)
    requires
        p.wf(),
        p is View || p is AddJobToView || p is RemoveJobFromView,
    ensures
        all_plain(path_segments(p)),
        path_segments(p).len() > 0 || p is Home,
        classify(path_segments(p), path_query(p)) == Some(p),
{
    let segs = path_segments(p);
    assert(kw_job() != kw_queue());
    assert(kw_job() != kw_view());
    assert(kw_view() != kw_queue());
    match p {
        PathView::View { name } => {
            lemma_encode_plain(name);
        },
        PathView::AddJobToView { job_name, view_name } => {
            lemma_encode_plain(view_name);
            lemma_encode_plain(job_name);
            let q = kw_name_param() + encode(job_name);
            assert(q.subrange(0, 5) =~= kw_name_param());
            assert(q.subrange(5, q.len() as int) =~= encode(job_name));
        },
        PathView::RemoveJobFromView { job_name, view_name } => {
            lemma_encode_plain(view_name);
            lemma_encode_plain(job_name);
            let q = kw_name_param() + encode(job_name);
            assert(q.subrange(0, 5) =~= kw_name_param());
            assert(q.subrange(5, q.len() as int) =~= encode(job_name));
        },
        _ => {},
    }
}

proof fn lemma_build_segments(p: PathView)
    requires
        p.wf(),
        p is Build || p is ConsoleText || p is MavenArtifactRecord,
    ensures
        all_plain(path_segments(p)),
        path_segments(p).len() > 0 || p is Home,
        classify(path_segments(p), path_query(p)) == Some(p),
{
    let segs = path_segments(p);
    assert(kw_job() != kw_queue());
    assert(kw_job() != kw_view());
    assert(kw_view() != kw_queue());
    match p {
        PathView::Build { job_name, configuration, number } => {
            let chain = seq![job_name] + configuration;
            let tail = seq![selector_segment(number)];
            lemma_selector_round_trip(number);
            lemma_job_segments_plain(chain);
            lemma_job_prefix(job_name, configuration, tail);
            assert(job_segments(chain) + tail =~= segs);
            assert(chain.drop_first() =~= configuration);
        },
        PathView::ConsoleText { job_name, configuration, number } => {
            let chain = seq![job_name] + configuration;
            let tail = seq![selector_segment(number), kw_console()];
            lemma_selector_round_trip(number);
            lemma_job_segments_plain(chain);
            lemma_job_prefix(job_name, configuration, tail);
            assert(chain.drop_first() =~= configuration);
        },
        PathView::MavenArtifactRecord { job_name, configuration, number } => {
            let chain = seq![job_name] + configuration;
            let tail = seq![selector_segment(number), kw_maven()];
            lemma_selector_round_trip(number);
            lemma_job_segments_plain(chain);
            lemma_job_prefix(job_name, configuration, tail);
            assert(chain.drop_first() =~= configuration);
        },
        _ => {},
    }
}

proof fn lemma_queue_segments(p: PathView)
    requires
        p.wf(),
        p is Home || p is Queue || p is QueueItem,
    ensures
        all_plain(path_segments(p)),
        path_segments(p).len() > 0 || p is Home,
        classify(path_segments(p), path_query(p)) == Some(p),
{
    let segs = path_segments(p);
    assert(kw_job() != kw_queue());
    assert(kw_job() != kw_view());
    assert(kw_view() != kw_queue());
    match p {
        PathView::Home => {},
        PathView::Queue => {},
        PathView::QueueItem { id } => {
            lemma_numeral(id as nat);
            let n = numeral(id as nat);
            assert forall|k: int| 0 <= k < n.len() implies #[trigger] n[k] != SLASH && n[k]
                != QUESTION by {
                assert(is_digit(n[k]));
            }
        },
        _ => {},
    }
}

proof fn lemma_path_segments(p: PathView)
    requires
        p.wf(),
    ensures
        all_plain(path_segments(p)),
        path_segments(p).len() > 0 || p is Home,
        classify(path_segments(p), path_query(p)) == Some(p),
{
    if p is Job || p is JobEnable || p is JobDisable || p is PollSCMJob {
        lemma_job_family_segments(p);
    } else if p is View || p is AddJobToView || p is RemoveJobFromView {
        lemma_view_segments(p);
    } else if p is Build || p is ConsoleText || p is MavenArtifactRecord {
        lemma_build_segments(p);
    } else {
        lemma_queue_segments(p);
    }
}

/// Parsing undoes rendering: a well-formed path, rendered under any base URL
/// and read back under the same base, is the path itself.
pub proof fn lemma_parse_render(p: PathView, base: Seq<u8>)
    requires
        p.wf(),
    ensures
        parse(render(p, base), base) == Some(p),
{
    let rel = render_relative(p);
    let url = render(p, base);
    assert(url.subrange(0, base.len() as int) =~= base);
    assert(url.subrange(base.len() as int, url.len() as int) =~= rel);
    assert(strip_base(url, base) == rel);
    lemma_path_segments(p);
    if p is Home {
        let e = Seq::<u8>::empty();
        assert(rel.drop_first() =~= e);
        assert(rel[0] == SLASH);
        assert(find_byte(e, QUESTION) == 0);
        assert(find_byte(rel, QUESTION) == 1);
        assert(rel.subrange(0, 1) =~= rel);
        assert(rel.drop_last() =~= e);
        assert(split(e) == seq![e]);
        assert(split(rel) =~= seq![e, e]);
        assert(trim(seq![e, e]) =~= Seq::<Seq<u8>>::empty());
    } else {
        let segs = path_segments(p);
        lemma_relative_split(p);
        lemma_split_join(segs);
        assert((seq![Seq::<u8>::empty()] + segs).drop_first() =~= segs);
        assert(segs.last().len() > 0);
        assert(trim(seq![Seq::<u8>::empty()] + segs) == segs);
    }
}

/// A console-text URL and the URL of its build parse to different paths: the
/// longer template wins.
pub proof fn lemma_console_before_build(
    job_name: Seq<u8>,
    configuration: Seq<Seq<u8>>,
    number: BuildSelector,
    base: Seq<u8>,
)
    requires
        job_name.len() > 0,
        names_wf(configuration),
    ensures
        parse(render(PathView::ConsoleText { job_name, configuration, number }, base), base)
            == Some(PathView::ConsoleText { job_name, configuration, number }),
        parse(render(PathView::Build { job_name, configuration, number }, base), base) == Some(
            PathView::Build { job_name, configuration, number },
        ),
        parse(render(PathView::ConsoleText { job_name, configuration, number }, base), base)
            != parse(render(PathView::Build { job_name, configuration, number }, base), base),
{
    lemma_parse_render(PathView::ConsoleText { job_name, configuration, number }, base);
    lemma_parse_render(PathView::Build { job_name, configuration, number }, base);
}

// --------------------------------------------------------- exec rendering
proof fn lemma_join_push(segs: Seq<Seq<u8>>, s: Seq<u8>)
    ensures
        join(segs.push(s)) == join(segs).push(SLASH) + s,
{
    assert(segs.push(s).drop_last() =~= segs);
}

proof fn lemma_job_segments_push(c: Seq<Seq<u8>>, n: Seq<u8>)
    ensures
        job_segments(c.push(n)) == job_segments(c) + seq![kw_job(), encode(n)],
    decreases c.len(),
{
    if c.len() == 0 {
        assert(c.push(n).drop_first() =~= Seq::<Seq<u8>>::empty());
        assert(job_segments(Seq::<Seq<u8>>::empty()) == Seq::<Seq<u8>>::empty());
        assert(c.push(n)[0] == n);
        assert(job_segments(c.push(n)) =~= job_segments(c) + seq![kw_job(), encode(n)]);
    } else {
        assert(c.push(n).drop_first() =~= c.drop_first().push(n));
        lemma_job_segments_push(c.drop_first(), n);
        assert(job_segments(c.push(n)) =~= job_segments(c) + seq![kw_job(), encode(n)]);
    }
}

/// Appends `/` and the segment.
fn push_segment(out: &mut Vec<u8>, seg: &[u8])
    ensures
        final(out)@ == old(out)@.push(SLASH) + seg@,
{
    out.push(SLASH);
    let ghost mid = out@;
    let mut i: usize = 0;
    while i < seg.len()
        invariant
            i <= seg.len(),
            out@ == mid + seg@.subrange(0, i as int),
        decreases seg.len() - i,
    {
        out.push(seg[i]);
        i = i + 1;
        assert(out@ =~= mid + seg@.subrange(0, i as int));
    }
    assert(seg@.subrange(0, seg.len() as int) =~= seg@);
}

/// Appends `/` and the encoded name.
fn push_name(out: &mut Vec<u8>, name: &Name)
    ensures
        final(out)@ == old(out)@.push(SLASH) + encode(name@),
{
    out.push(SLASH);
    encode_into(name.bytes.as_slice(), out);
}

/// Appends `/` and the selector's segment.
fn push_selector(out: &mut Vec<u8>, sel: BuildSelector)
    ensures
        final(out)@ == old(out)@.push(SLASH) + selector_segment(sel),
{
    match sel {
        BuildSelector::Number(n) => {
            out.push(SLASH);
            push_numeral(n, out);
        },
        BuildSelector::LastBuild => push_segment(
            out,
            &[108u8, 97u8, 115u8, 116u8, 66u8, 117u8, 105u8, 108u8, 100u8],
        ),
        BuildSelector::LastStableBuild => push_segment(
            out,
            &[
                108u8, 97u8, 115u8, 116u8, 83u8, 116u8, 97u8, 98u8, 108u8, 101u8, 66u8, 117u8,
                105u8, 108u8, 100u8,
            ],
        ),
        BuildSelector::LastSuccessfulBuild => push_segment(
            out,
            &[
                108u8, 97u8, 115u8, 116u8, 83u8, 117u8, 99u8, 99u8, 101u8, 115u8, 115u8, 102u8,
                117u8, 108u8, 66u8, 117u8, 105u8, 108u8, 100u8,
            ],
        ),
        BuildSelector::LastFailedBuild => push_segment(
            out,
            &[
                108u8, 97u8, 115u8, 116u8, 70u8, 97u8, 105u8, 108u8, 101u8, 100u8, 66u8, 117u8,
                105u8, 108u8, 100u8,
            ],
        ),
        BuildSelector::LastUnstableBuild => push_segment(
            out,
            &[
                108u8, 97u8, 115u8, 116u8, 85u8, 110u8, 115u8, 116u8, 97u8, 98u8, 108u8, 101u8,
                66u8, 117u8, 105u8, 108u8, 100u8,
            ],
        ),
        BuildSelector::LastUnsuccessfulBuild => push_segment(
            out,
            &[
                108u8, 97u8, 115u8, 116u8, 85u8, 110u8, 115u8, 117u8, 99u8, 99u8, 101u8, 115u8,
                115u8, 102u8, 117u8, 108u8, 66u8, 117u8, 105u8, 108u8, 100u8,
            ],
        ),
        BuildSelector::LastCompletedBuild => push_segment(
            out,
            &[
                108u8, 97u8, 115u8, 116u8, 67u8, 111u8, 109u8, 112u8, 108u8, 101u8, 116u8, 101u8,
                100u8, 66u8, 117u8, 105u8, 108u8, 100u8,
            ],
        ),
        BuildSelector::FirstBuild => push_segment(
            out,
            &[102u8, 105u8, 114u8, 115u8, 116u8, 66u8, 117u8, 105u8, 108u8, 100u8],
        ),
    }
}

/// Appends `/job/{n}` for the name and each configuration below it.
fn push_job_chain(out: &mut Vec<u8>, name: &Name, configuration: &Vec<Name>)
    ensures
        final(out)@ == old(out)@ + join(
            job_segments(seq![name@] + names_view(configuration@)),
        ),
{
    let ghost start = out@;
    push_segment(out, &[106u8, 111u8, 98u8]);
    push_name(out, name);
    let ghost mut segs = seq![kw_job(), encode(name@)];
    proof {
        lemma_join_push(seq![], kw_job());
        lemma_join_push(seq![kw_job()], encode(name@));
        assert(seq![kw_job()] =~= Seq::<Seq<u8>>::empty().push(kw_job()));
        assert(segs =~= seq![kw_job()].push(encode(name@)));
        assert(join(Seq::<Seq<u8>>::empty()) == Seq::<u8>::empty());
        assert(out@ =~= start + join(segs));
        assert(seq![name@] + names_view(configuration@).subrange(0, 0) =~= seq![name@]);
        assert(seq![name@].drop_first() =~= Seq::<Seq<u8>>::empty());
        assert(job_segments(Seq::<Seq<u8>>::empty()) == Seq::<Seq<u8>>::empty());
        assert(job_segments(seq![name@]) =~= segs);
    }
    let mut i: usize = 0;
    while i < configuration.len()
        invariant
            i <= configuration.len(),
            out@ == start + join(segs),
            segs == job_segments(seq![name@] + names_view(configuration@).subrange(0, i as int)),
        decreases configuration.len() - i,
    {
        let c = &configuration[i];
        push_segment(out, &[106u8, 111u8, 98u8]);
        push_name(out, c);
        proof {
            let prefix = seq![name@] + names_view(configuration@).subrange(0, i as int);
            lemma_job_segments_push(prefix, c@);
            assert(seq![name@] + names_view(configuration@).subrange(0, i + 1) =~= prefix.push(
                c@,
            ));
            lemma_join_push(segs, kw_job());
            lemma_join_push(segs.push(kw_job()), encode(c@));
            segs = segs.push(kw_job()).push(encode(c@));
            assert(segs =~= job_segments(prefix) + seq![kw_job(), encode(c@)]);
            assert(out@ =~= start + join(segs));
        }
        i = i + 1;
    }
    assert(names_view(configuration@).subrange(0, i as int) =~= names_view(configuration@));
}

impl Path {
    /// The absolute URL of this path under the server's base URL.
    pub fn render(&self, base: &str) -> (r: Vec<u8>)
        ensures
            r@ == render(self@, base.spec_bytes()),
    {
        let mut out = slice_to_vec(base.as_bytes());
        let ghost b = out@;
        let ghost e = Seq::<Seq<u8>>::empty();
        proof {
            assert(join(e) == Seq::<u8>::empty());
        }
        match self {
            Path::Home => {
                out.push(SLASH);
            },
            Path::Job { name, configuration } => {
                push_job_chain(&mut out, name, configuration);
            },
            Path::JobEnable { name } => {
                let ghost js = job_segments(seq![name@]);
                proof {
                    assert(seq![name@] + names_view(Seq::<Name>::empty()) =~= seq![name@]);
                }
                push_job_chain(&mut out, name, &Vec::new());
                push_segment(&mut out, &[101u8, 110u8, 97u8, 98u8, 108u8, 101u8]);
                proof {
                    lemma_join_push(js, kw_enable());
                }
            },
            Path::JobDisable { name } => {
                let ghost js = job_segments(seq![name@]);
                proof {
                    assert(seq![name@] + names_view(Seq::<Name>::empty()) =~= seq![name@]);
                }
                push_job_chain(&mut out, name, &Vec::new());
                push_segment(&mut out, &[100u8, 105u8, 115u8, 97u8, 98u8, 108u8, 101u8]);
                proof {
                    lemma_join_push(js, kw_disable());
                }
            },
            Path::PollSCMJob { name } => {
                let ghost js = job_segments(seq![name@]);
                proof {
                    assert(seq![name@] + names_view(Seq::<Name>::empty()) =~= seq![name@]);
                }
                push_job_chain(&mut out, name, &Vec::new());
                push_segment(&mut out, &[112u8, 111u8, 108u8, 108u8, 105u8, 110u8, 103u8]);
                proof {
                    lemma_join_push(js, kw_polling());
                }
            },
            Path::View { name } => {
                push_segment(&mut out, &[118u8, 105u8, 101u8, 119u8]);
                push_name(&mut out, name);
                proof {
                    lemma_join_push(e, kw_view());
                    lemma_join_push(e.push(kw_view()), encode(name@));
                    assert(e.push(kw_view()).push(encode(name@)) =~= path_segments(self@));
                }
            },
            Path::AddJobToView { job_name, view_name } => {
                push_segment(&mut out, &[118u8, 105u8, 101u8, 119u8]);
                push_name(&mut out, view_name);
                push_segment(
                    &mut out,
                    &[97u8, 100u8, 100u8, 74u8, 111u8, 98u8, 84u8, 111u8, 86u8, 105u8, 101u8, 119u8],
                );
                let ghost body = out@;
                push_query(&mut out, job_name);
                proof {
                    lemma_join_push(e, kw_view());
                    lemma_join_push(e.push(kw_view()), encode(view_name@));
                    lemma_join_push(e.push(kw_view()).push(encode(view_name@)), kw_add_job());
                    assert(e.push(kw_view()).push(encode(view_name@)).push(kw_add_job())
                        =~= path_segments(self@));
                    assert(out@ =~= body.push(QUESTION) + (kw_name_param() + encode(job_name@)));
                }
            },
            Path::RemoveJobFromView { job_name, view_name } => {
                push_segment(&mut out, &[118u8, 105u8, 101u8, 119u8]);
                push_name(&mut out, view_name);
                push_segment(
                    &mut out,
                    &[
                        114u8, 101u8, 109u8, 111u8, 118u8, 101u8, 74u8, 111u8, 98u8, 70u8, 114u8,
                        111u8, 109u8, 86u8, 105u8, 101u8, 119u8,
                    ],
                );
                let ghost body = out@;
                push_query(&mut out, job_name);
                proof {
                    lemma_join_push(e, kw_view());
                    lemma_join_push(e.push(kw_view()), encode(view_name@));
                    lemma_join_push(e.push(kw_view()).push(encode(view_name@)), kw_remove_job());
                    assert(e.push(kw_view()).push(encode(view_name@)).push(kw_remove_job())
                        =~= path_segments(self@));
                    assert(out@ =~= body.push(QUESTION) + (kw_name_param() + encode(job_name@)));
                }
            },
            Path::Build { job_name, configuration, number } => {
                let ghost js = job_segments(seq![job_name@] + names_view(configuration@));
                push_job_chain(&mut out, job_name, configuration);
                push_selector(&mut out, *number);
                proof {
                    lemma_join_push(js, selector_segment(*number));
                }
            },
            Path::ConsoleText { job_name, configuration, number } => {
                let ghost js = job_segments(seq![job_name@] + names_view(configuration@));
                push_job_chain(&mut out, job_name, configuration);
                push_selector(&mut out, *number);
                push_segment(
                    &mut out,
                    &[99u8, 111u8, 110u8, 115u8, 111u8, 108u8, 101u8, 84u8, 101u8, 120u8, 116u8],
                );
                proof {
                    lemma_join_push(js, selector_segment(*number));
                    lemma_join_push(js.push(selector_segment(*number)), kw_console());
                    assert(js.push(selector_segment(*number)).push(kw_console()) =~= path_segments(
                        self@,
                    ));
                }
            },
            Path::MavenArtifactRecord { job_name, configuration, number } => {
                let ghost js = job_segments(seq![job_name@] + names_view(configuration@));
                push_job_chain(&mut out, job_name, configuration);
                push_selector(&mut out, *number);
                push_segment(
                    &mut out,
                    &[
                        109u8, 97u8, 118u8, 101u8, 110u8, 65u8, 114u8, 116u8, 105u8, 102u8, 97u8,
                        99u8, 116u8, 115u8,
                    ],
                );
                proof {
                    lemma_join_push(js, selector_segment(*number));
                    lemma_join_push(js.push(selector_segment(*number)), kw_maven());
                    assert(js.push(selector_segment(*number)).push(kw_maven()) =~= path_segments(
                        self@,
                    ));
                }
            },
            Path::Queue => {
                push_segment(&mut out, &[113u8, 117u8, 101u8, 117u8, 101u8]);
                proof {
                    lemma_join_push(e, kw_queue());
                    assert(e.push(kw_queue()) =~= path_segments(self@));
                }
            },
            Path::QueueItem { id } => {
                push_segment(&mut out, &[113u8, 117u8, 101u8, 117u8, 101u8]);
                push_segment(&mut out, &[105u8, 116u8, 101u8, 109u8]);
                out.push(SLASH);
                push_numeral(*id, &mut out);
                proof {
                    lemma_join_push(e, kw_queue());
                    lemma_join_push(e.push(kw_queue()), kw_item());
                    lemma_join_push(e.push(kw_queue()).push(kw_item()), numeral(*id as nat));
                    assert(e.push(kw_queue()).push(kw_item()).push(numeral(*id as nat))
                        =~= path_segments(self@));
                }
            },
        }
        assert(out@ =~= render(self@, base.spec_bytes()));
        out
    }
}

/// Appends `?name=` and the encoded job name.
fn push_query(out: &mut Vec<u8>, job_name: &Name)
    ensures
        final(out)@ == old(out)@.push(QUESTION) + (kw_name_param() + encode(job_name@)),
{
    let ghost start = out@;
    out.push(QUESTION);
    out.push(110u8);
    out.push(97u8);
    out.push(109u8);
    out.push(101u8);
    out.push(61u8);
    encode_into(job_name.bytes.as_slice(), out);
    assert(out@ =~= start.push(QUESTION) + (kw_name_param() + encode(job_name@)));
}

// ----------------------------------------------------------- exec parsing
pub open spec fn segs_view(v: Seq<Vec<u8>>) -> Seq<Seq<u8>> {
    v.map_values(|x: Vec<u8>| x@)
}

pub open spec fn view_opt(r: Option<Path>) -> Option<PathView> {
    match r {
        Some(p) => Some(p@),
        None => None,
    }
}

/// Whether `s` is exactly `kw`.
fn eq_kw(s: &Vec<u8>, kw: &[u8]) -> (r: bool)
    ensures
        r == (s@ == kw@),
{
    if s.len() != kw.len() {
        return false;
    }
    let mut i: usize = 0;
    while i < kw.len()
        invariant
            i <= kw.len(),
            s@.len() == kw@.len(),
            forall|k: int| 0 <= k < i ==> s@[k] == kw@[k],
        decreases kw.len() - i,
    {
        if s[i] != kw[i] {
            return false;
        }
        i = i + 1;
    }
    assert(s@ =~= kw@);
    true
}

/// Whether `s[from..]` starts with `kw`.
fn has_prefix_at(s: &[u8], from: usize, kw: &[u8]) -> (r: bool)
    requires
        from <= s.len(),
    ensures
        r == (kw.len() <= s.len() - from && s@.subrange(from as int, from + kw.len()) == kw@),
{
    if kw.len() > s.len() - from {
        return false;
    }
    let mut i: usize = 0;
    while i < kw.len()
        invariant
            i <= kw.len(),
            kw.len() <= s.len() - from,
            forall|k: int| 0 <= k < i ==> s@[from + k] == kw@[k],
        decreases kw.len() - i,
    {
        if s[from + i] != kw[i] {
            assert(s@.subrange(from as int, from + kw.len())[i as int] != kw@[i as int]);
            return false;
        }
        i = i + 1;
    }
    assert(s@.subrange(from as int, from + kw.len()) =~= kw@);
    true
}

fn parse_selector_exec(s: &Vec<u8>) -> (r: Option<BuildSelector>)
    ensures
        r == parse_selector(s@),
{
    assert(s@.subrange(0, s@.len() as int) =~= s@);
    match crate::number::parse_number_range(s.as_slice(), 0, s.len()) {
        Some(n) => Some(BuildSelector::Number(n)),
        None => if eq_kw(s, &[108u8, 97u8, 115u8, 116u8, 66u8, 117u8, 105u8, 108u8, 100u8]) {
            Some(BuildSelector::LastBuild)
        } else if eq_kw(
            s,
            &[
                108u8, 97u8, 115u8, 116u8, 83u8, 116u8, 97u8, 98u8, 108u8, 101u8, 66u8, 117u8,
                105u8, 108u8, 100u8,
            ],
        ) {
            Some(BuildSelector::LastStableBuild)
        } else if eq_kw(
            s,
            &[
                108u8, 97u8, 115u8, 116u8, 83u8, 117u8, 99u8, 99u8, 101u8, 115u8, 115u8, 102u8,
                117u8, 108u8, 66u8, 117u8, 105u8, 108u8, 100u8,
            ],
        ) {
            Some(BuildSelector::LastSuccessfulBuild)
        } else if eq_kw(
            s,
            &[
                108u8, 97u8, 115u8, 116u8, 70u8, 97u8, 105u8, 108u8, 101u8, 100u8, 66u8, 117u8,
                105u8, 108u8, 100u8,
            ],
        ) {
            Some(BuildSelector::LastFailedBuild)
        } else if eq_kw(
            s,
            &[
                108u8, 97u8, 115u8, 116u8, 85u8, 110u8, 115u8, 116u8, 97u8, 98u8, 108u8, 101u8,
                66u8, 117u8, 105u8, 108u8, 100u8,
            ],
        ) {
            Some(BuildSelector::LastUnstableBuild)
        } else if eq_kw(
            s,
            &[
                108u8, 97u8, 115u8, 116u8, 85u8, 110u8, 115u8, 117u8, 99u8, 99u8, 101u8, 115u8,
                115u8, 102u8, 117u8, 108u8, 66u8, 117u8, 105u8, 108u8, 100u8,
            ],
        ) {
            Some(BuildSelector::LastUnsuccessfulBuild)
        } else if eq_kw(
            s,
            &[
                108u8, 97u8, 115u8, 116u8, 67u8, 111u8, 109u8, 112u8, 108u8, 101u8, 116u8, 101u8,
                100u8, 66u8, 117u8, 105u8, 108u8, 100u8,
            ],
        ) {
            Some(BuildSelector::LastCompletedBuild)
        } else if eq_kw(s, &[102u8, 105u8, 114u8, 115u8, 116u8, 66u8, 117u8, 105u8, 108u8, 100u8]) {
            Some(BuildSelector::FirstBuild)
        } else {
            None
        },
    }
}

fn decode_segment(s: &Vec<u8>) -> (r: Name)
    ensures
        r@ == decode(s@),
{
    Name { bytes: crate::encoding::decode_name(s.as_slice()) }
}

/// What follows the job chain `segs[2..i]`, given the first name and the configurations read.
fn classify_job_tail_exec(segs: &Vec<Vec<u8>>, i: usize, name: Name, configuration: Vec<Name>) -> (r: Option<Path>)
    requires
        i <= segs.len(),
    ensures
        view_opt(r) == classify_job_tail(
            seq![name@] + names_view(configuration@),
            segs_view(segs@).subrange(i as int, segs.len() as int),
        ),
{
    let ghost chain = seq![name@] + names_view(configuration@);
    let ghost rest = segs_view(segs@).subrange(i as int, segs.len() as int);
    proof {
        assert(chain[0] == name@);
        assert(chain.drop_first() =~= names_view(configuration@));
    }
    let rem = segs.len() - i;
    if rem == 0 {
        return Some(Path::Job { name, configuration });
    }
    assert(rest[0] == segs@[i as int]@);
    let single = configuration.len() == 0;
    if rem == 1 && single && eq_kw(&segs[i], &[101u8, 110u8, 97u8, 98u8, 108u8, 101u8]) {
        return Some(Path::JobEnable { name });
    }
    if rem == 1 && single && eq_kw(&segs[i], &[100u8, 105u8, 115u8, 97u8, 98u8, 108u8, 101u8]) {
        return Some(Path::JobDisable { name });
    }
    if rem == 1 && single && eq_kw(&segs[i], &[112u8, 111u8, 108u8, 108u8, 105u8, 110u8, 103u8]) {
        return Some(Path::PollSCMJob { name });
    }
    match parse_selector_exec(&segs[i]) {
        Some(number) => {
            if rem == 1 {
                Some(Path::Build { job_name: name, configuration, number })
            } else if rem == 2 && eq_kw(
                &segs[i + 1],
                &[99u8, 111u8, 110u8, 115u8, 111u8, 108u8, 101u8, 84u8, 101u8, 120u8, 116u8],
            ) {
                Some(Path::ConsoleText { job_name: name, configuration, number })
            } else if rem == 2 && eq_kw(
                &segs[i + 1],
                &[
                    109u8, 97u8, 118u8, 101u8, 110u8, 65u8, 114u8, 116u8, 105u8, 102u8, 97u8,
                    99u8, 116u8, 115u8,
                ],
            ) {
                Some(Path::MavenArtifactRecord { job_name: name, configuration, number })
            } else {
                None
            }
        },
        None => None,
    }
}

/// Reads the job chain of segments that start with `job/{n}`.
fn classify_job_exec(segs: &Vec<Vec<u8>>) -> (r: Option<Path>)
    requires
        segs.len() >= 2,
    ensures
        view_opt(r) == classify_job(
            seq![decode(segs@[1]@)],
            segs_view(segs@).subrange(2, segs.len() as int),
        ),
{
    let ghost sv = segs_view(segs@);
    let name = decode_segment(&segs[1]);
    let mut configuration: Vec<Name> = Vec::new();
    let mut i: usize = 2;
    proof {
        assert(seq![name@] + names_view(configuration@) =~= seq![decode(segs@[1]@)]);
    }
    while segs.len() - i >= 2 && eq_kw(&segs[i], &[106u8, 111u8, 98u8])
        invariant
            2 <= i <= segs.len(),
            sv == segs_view(segs@),
            classify_job(seq![name@] + names_view(configuration@), sv.subrange(i as int, sv.len() as int))
                == classify_job(seq![decode(segs@[1]@)], sv.subrange(2, sv.len() as int)),
        decreases segs.len() - i,
    {
        let ghost rest = sv.subrange(i as int, sv.len() as int);
        let ghost chain = seq![name@] + names_view(configuration@);
        let c = decode_segment(&segs[i + 1]);
        proof {
            assert(rest[0] == segs@[i as int]@);
            assert(rest[1] == segs@[i + 1]@);
            assert(rest.subrange(2, rest.len() as int) =~= sv.subrange(i + 2, sv.len() as int));
        }
        configuration.push(c);
        proof {
            assert(seq![name@] + names_view(configuration@) =~= chain.push(c@));
        }
        i = i + 2;
    }
    proof {
        let rest = sv.subrange(i as int, sv.len() as int);
        if rest.len() >= 2 {
            assert(rest[0] == segs@[i as int]@);
        }
    }
    classify_job_tail_exec(segs, i, name, configuration)
}

pub open spec fn query_range(url: Seq<u8>, from: int, has_query: bool) -> Option<Seq<u8>> {
    if has_query {
        Some(url.subrange(from, url.len() as int))
    } else {
        None
    }
}

/// The path that the segments and the query `url[from..]` (if there is one) spell.
fn classify_exec(segs: &Vec<Vec<u8>>, url: &[u8], from: usize, has_query: bool) -> (r: Option<Path>)
    requires
        from <= url.len(),
    ensures
        view_opt(r) == classify(segs_view(segs@), query_range(url@, from as int, has_query)),
{
    let ghost sv = segs_view(segs@);
    let ghost query = query_range(url@, from as int, has_query);
    let n = segs.len();
    if n == 0 {
        return Some(Path::Home);
    }
    assert(sv[0] == segs@[0]@);
    if eq_kw(&segs[0], &[113u8, 117u8, 101u8, 117u8, 101u8]) {
        if n == 1 {
            return Some(Path::Queue);
        }
        if n == 3 && eq_kw(&segs[1], &[105u8, 116u8, 101u8, 109u8]) {
            assert(sv[1] == segs@[1]@);
            assert(sv[2] == segs@[2]@);
            assert(segs@[2]@.subrange(0, segs@[2]@.len() as int) =~= segs@[2]@);
            match crate::number::parse_number_range(segs[2].as_slice(), 0, segs[2].len()) {
                Some(id) => {
                    return Some(Path::QueueItem { id });
                },
                None => {
                    return None;
                },
            }
        }
        assert(n == 3 ==> sv[1] == segs@[1]@);
        return None;
    }
    if n >= 2 && eq_kw(&segs[0], &[118u8, 105u8, 101u8, 119u8]) {
        let view_name = decode_segment(&segs[1]);
        assert(sv[1] == segs@[1]@);
        if n == 2 {
            return Some(Path::View { name: view_name });
        }
        if n != 3 {
            return None;
        }
        assert(sv[2] == segs@[2]@);
        let add = eq_kw(
            &segs[2],
            &[97u8, 100u8, 100u8, 74u8, 111u8, 98u8, 84u8, 111u8, 86u8, 105u8, 101u8, 119u8],
        );
        let remove = eq_kw(
            &segs[2],
            &[
                114u8, 101u8, 109u8, 111u8, 118u8, 101u8, 74u8, 111u8, 98u8, 70u8, 114u8, 111u8,
                109u8, 86u8, 105u8, 101u8, 119u8,
            ],
        );
        if !add && !remove {
            return None;
        }
        if !has_query {
            return None;
        }
        let named = has_prefix_at(url, from, &[110u8, 97u8, 109u8, 101u8, 61u8]);
        proof {
            let q = url@.subrange(from as int, url.len() as int);
            if q.len() >= 5 {
                assert(q.subrange(0, 5) =~= url@.subrange(from as int, from + 5));
            }
        }
        if !named {
            return None;
        }
        let job_name = Name { bytes: crate::encoding::decode_range(url, from + 5, url.len()) };
        proof {
            let q = url@.subrange(from as int, url.len() as int);
            assert(q.subrange(0, 5) =~= url@.subrange(from as int, from + 5));
            assert(q.subrange(5, q.len() as int) =~= url@.subrange(from + 5, url.len() as int));
        }
        if add {
            return Some(Path::AddJobToView { job_name, view_name });
        } else {
            return Some(Path::RemoveJobFromView { job_name, view_name });
        }
    }
    if n >= 2 && eq_kw(&segs[0], &[106u8, 111u8, 98u8]) {
        assert(sv[1] == segs@[1]@);
        return classify_job_exec(segs);
    }
    None
}

proof fn lemma_find_at(s: Seq<u8>, i: int, b: u8)
    requires
        0 <= i <= s.len(),
        forall|k: int| 0 <= k < i ==> s[k] != b,
        i == s.len() || s[i] == b,
    ensures
        find_byte(s, b) == i,
{
    let a = s.subrange(0, i);
    let t = s.subrange(i, s.len() as int);
    assert(a + t =~= s);
    lemma_find_prefix(a, t, b);
    if i < s.len() {
        assert(t[0] == b);
    }
}

/// The `/`-separated pieces of `u[start..end]`.
fn split_range(u: &[u8], start: usize, end: usize) -> (r: Vec<Vec<u8>>)
    requires
        start <= end <= u.len(),
    ensures
        segs_view(r@) == split(u@.subrange(start as int, end as int)),
{
    let mut segs: Vec<Vec<u8>> = Vec::new();
    let mut cur: Vec<u8> = Vec::new();
    let mut i: usize = start;
    proof {
        assert(u@.subrange(start as int, start as int) =~= Seq::<u8>::empty());
        assert(segs_view(segs@).push(cur@) =~= seq![Seq::<u8>::empty()]);
    }
    while i < end
        invariant
            start <= i <= end <= u.len(),
            segs_view(segs@).push(cur@) == split(u@.subrange(start as int, i as int)),
        decreases end - i,
    {
        let c = u[i];
        let ghost pre = u@.subrange(start as int, i as int);
        proof {
            assert(u@.subrange(start as int, i + 1).drop_last() =~= pre);
            assert(u@.subrange(start as int, i + 1).last() == c);
        }
        if c == SLASH {
            let ghost old_segs = segs_view(segs@);
            segs.push(cur);
            cur = Vec::new();
            proof {
                assert(segs_view(segs@) =~= old_segs.push(segs@.last()@));
                assert(segs_view(segs@).push(cur@) =~= split(pre).push(Seq::<u8>::empty()));
            }
        } else {
            let ghost old_cur = cur@;
            cur.push(c);
            proof {
                let init = split(pre);
                assert(init.last() == old_cur);
                assert(segs_view(segs@).push(cur@) =~= init.update(
                    init.len() - 1,
                    init.last().push(c),
                ));
            }
        }
        i = i + 1;
    }
    let ghost before = segs_view(segs@);
    segs.push(cur);
    assert(segs_view(segs@) =~= before.push(segs@.last()@));
    segs
}

/// Drops one empty segment at either end.
fn trim_segments(segs: &mut Vec<Vec<u8>>)
    ensures
        segs_view(final(segs)@) == trim(segs_view(old(segs)@)),
{
    let ghost full = segs_view(segs@);
    if segs.len() > 0 && segs[0].len() == 0 {
        segs.remove(0);
        assert(segs_view(segs@) =~= full.drop_first());
    }
    let ghost mid = segs_view(segs@);
    let n = segs.len();
    if n > 0 && segs[n - 1].len() == 0 {
        segs.pop();
        assert(segs_view(segs@) =~= mid.drop_last());
    }
}

impl Path {
    /// The path that `url` addresses, read relative to the server's base URL
    /// `base`; `None` where it matches no template.
    pub fn parse(url: &str, base: &str) -> (r: Option<Path>)
        ensures
            view_opt(r) == parse(url.spec_bytes(), base.spec_bytes()),
    {
        let u = url.as_bytes();
        let b = base.as_bytes();
        let start: usize = if has_prefix_at(u, 0, b) {
            b.len()
        } else {
            0
        };
        let ghost rel = u@.subrange(start as int, u@.len() as int);
        assert(strip_base(u@, b@) == rel) by {
            assert(u@.subrange(0, u@.len() as int) =~= u@);
        }
        let mut q: usize = start;
        while q < u.len() && u[q] != QUESTION
            invariant
                start <= q <= u.len(),
                forall|k: int| start <= k < q ==> u@[k] != QUESTION,
            decreases u.len() - q,
        {
            q = q + 1;
        }
        proof {
            lemma_find_at(rel, q - start, QUESTION);
            assert(before_query(rel) =~= u@.subrange(start as int, q as int));
            if q < u.len() {
                assert(rel.subrange(q - start + 1, rel.len() as int) =~= u@.subrange(
                    q + 1,
                    u@.len() as int,
                ));
            }
        }
        let mut segs = split_range(u, start, q);
        proof {
            assert(before_query(rel) =~= u@.subrange(start as int, q as int));
        }
        trim_segments(&mut segs);
        if q < u.len() {
            classify_exec(&segs, u, q + 1, true)
        } else {
            classify_exec(&segs, u, q, false)
        }
    }
}

} // verus!
