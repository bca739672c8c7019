//! Docker container model and the parsing of `docker ps` output.

use vstd::prelude::*;
use vstd::string::StringExecFns;

use crate::error::AppError;
use crate::output::CommandOutput;
use crate::strutil::{
    chars_vec, contains_sub, has_sub, lower_of, spec_lines, spec_split, spec_starts_with,
    spec_trim, split_char, starts_with, str_eq, to_lowercase,
};

verus! {

/// Docker container information, one line of `docker ps`.
#[derive(Debug)]
pub struct Container {
    pub id: String,
    pub name: String,
    pub image: String,
    pub status: ContainerStatus,
    pub ports: String,
    pub created: String,
    /// The compose project the container belongs to, if labelled.
    pub project: Option<String>,
}

/// Docker compose stack: the containers of one project.
#[derive(Debug)]
pub struct ComposeStack {
    pub name: String,
    pub path: Option<String>,
    pub containers: Vec<Container>,
    pub running_count: usize,
    pub total_count: usize,
}

/// Container status.
#[derive(Debug, Clone, Copy, PartialEq, Eq, Structural)]
pub enum ContainerStatus {
    Running,
    Exited,
    Paused,
    Restarting,
    Dead,
    Unknown,
}

/// The status a lowercased `docker ps` status text denotes.
pub open spec fn spec_status_of(t: Seq<char>) -> ContainerStatus {
    if has_sub(t, "up"@) || spec_starts_with(t, "running"@) {
        ContainerStatus::Running
    } else if has_sub(t, "exited"@) {
        ContainerStatus::Exited
    } else if has_sub(t, "paused"@) {
        ContainerStatus::Paused
    } else if has_sub(t, "restarting"@) {
        ContainerStatus::Restarting
    } else if has_sub(t, "dead"@) {
        ContainerStatus::Dead
    } else {
        ContainerStatus::Unknown
    }
}

impl ContainerStatus {
    /// The CSS badge class of the status.
    pub open spec fn spec_css_class(self) -> Seq<char> {
        match self {
            ContainerStatus::Running => "bg-green-600"@,
            ContainerStatus::Exited => "bg-red-600"@,
            ContainerStatus::Paused => "bg-yellow-600"@,
            ContainerStatus::Restarting => "bg-blue-600"@,
            ContainerStatus::Dead => "bg-gray-600"@,
            ContainerStatus::Unknown => "bg-gray-500"@,
        }
    }

    /// The display text of the status.
    pub open spec fn spec_display(self) -> Seq<char> {
        match self {
            ContainerStatus::Running => "Running"@,
            ContainerStatus::Exited => "Exited"@,
            ContainerStatus::Paused => "Paused"@,
            ContainerStatus::Restarting => "Restarting"@,
            ContainerStatus::Dead => "Dead"@,
            ContainerStatus::Unknown => "Unknown"@,
        }
    }

    /// Parses a status from `docker ps` output, case-insensitively.
    pub fn from_str(s: &str) -> (r: Self)
        ensures
            r == spec_status_of(lower_of(s@)),
    {
        let low = to_lowercase(s);
        let t = chars_vec(low.as_str());
        let up = chars_vec("up");
        let running = chars_vec("running");
        let exited = chars_vec("exited");
        let paused = chars_vec("paused");
        let restarting = chars_vec("restarting");
        let dead = chars_vec("dead");
        if contains_sub(t.as_slice(), up.as_slice()) || starts_with(
            t.as_slice(),
            running.as_slice(),
        ) {
            ContainerStatus::Running
        } else if contains_sub(t.as_slice(), exited.as_slice()) {
            ContainerStatus::Exited
        } else if contains_sub(t.as_slice(), paused.as_slice()) {
            ContainerStatus::Paused
        } else if contains_sub(t.as_slice(), restarting.as_slice()) {
            ContainerStatus::Restarting
        } else if contains_sub(t.as_slice(), dead.as_slice()) {
            ContainerStatus::Dead
        } else {
            ContainerStatus::Unknown
        }
    }

    /// CSS class for the status badge.
    pub fn css_class(&self) -> (r: &'static str)
        ensures
            r@ == self.spec_css_class(),
    {
        match self {
            ContainerStatus::Running => "bg-green-600",
            ContainerStatus::Exited => "bg-red-600",
            ContainerStatus::Paused => "bg-yellow-600",
            ContainerStatus::Restarting => "bg-blue-600",
            ContainerStatus::Dead => "bg-gray-600",
            ContainerStatus::Unknown => "bg-gray-500",
        }
    }

    /// Display text of the status.
    pub fn display(&self) -> (r: &'static str)
        ensures
            r@ == self.spec_display(),
    {
        match self {
            ContainerStatus::Running => "Running",
            ContainerStatus::Exited => "Exited",
            ContainerStatus::Paused => "Paused",
            ContainerStatus::Restarting => "Restarting",
            ContainerStatus::Dead => "Dead",
            ContainerStatus::Unknown => "Unknown",
        }
    }
}

/// Node status summary.
#[derive(Debug)]
pub struct NodeSummary {
    pub name: String,
    pub host: String,
    pub total: usize,
    pub running: usize,
    pub stopped: usize,
    pub online: bool,
}

/// A line of `docker ps` output has enough `|`-separated fields to name
/// a container.
pub open spec fn line_parses(line: Seq<char>) -> bool {
    spec_split(line, '|').len() >= 6
}

/// A built container carries exactly the fields of a `docker ps` line:
/// an empty or missing seventh field means no compose project.
pub open spec fn container_matches(c: Container, line: Seq<char>) -> bool {
    let ps = spec_split(line, '|');
    &&& ps.len() >= 6
    &&& c.id@ == ps[0]
    &&& c.name@ == ps[1]
    &&& c.image@ == ps[2]
    &&& c.status == spec_status_of(lower_of(ps[3]))
    &&& c.ports@ == ps[4]
    &&& c.created@ == ps[5]
    &&& if ps.len() > 6 && ps[6].len() > 0 {
        c.project matches Some(p) && p@ == ps[6]
    } else {
        c.project is None
    }
}

/// Parses a single container line of `docker ps` output: seven
/// `|`-separated fields, of which at least six must be present.
pub fn parse_container_line(line: &str) -> (r: Result<Container, AppError>)
    ensures
        match r {
            Ok(c) => container_matches(c, line@),
            Err(e) => !line_parses(line@) && (e matches AppError::Docker(m) && m@
                == "Invalid container line format: "@ + line@),
        },
{
    let v = chars_vec(line);
    let parts = split_char(v.as_slice(), '|');
    if parts.len() < 6 {
        return Err(
            AppError::Docker(String::from_str("Invalid container line format: ").concat(line)),
        );
    }
    let project = if parts.len() > 6 && parts[6].as_str().is_empty() == false {
        Some(parts[6].clone())
    } else {
        None
    };
    Ok(
        Container {
            id: parts[0].clone(),
            name: parts[1].clone(),
            image: parts[2].clone(),
            status: ContainerStatus::from_str(parts[3].as_str()),
            ports: parts[4].clone(),
            created: parts[5].clone(),
            project,
        },
    )
}

/// The container rows of a listing: its lines, those that are blank
/// after trimming dropped, the others kept verbatim.
pub open spec fn spec_container_rows(ls: Seq<Seq<char>>) -> Seq<Seq<char>>
    decreases ls.len(),
{
    if ls.len() == 0 {
        Seq::empty()
    } else if spec_trim(ls.last()).len() > 0 {
        spec_container_rows(ls.drop_last()).push(ls.last())
    } else {
        spec_container_rows(ls.drop_last())
    }
}

/// The first row that does not parse, if any.
pub open spec fn spec_first_bad_row(rows: Seq<Seq<char>>, i: int) -> Option<int>
    decreases rows.len() - i,
{
    if i < 0 || i >= rows.len() {
        None
    } else if !line_parses(rows[i]) {
        Some(i)
    } else {
        spec_first_bad_row(rows, i + 1)
    }
}

/// Reads a whole `docker ps` listing: a failing command is a docker
/// error carrying its stderr; otherwise every nonblank line must parse,
/// and the first one that does not aborts with its own error.
pub fn parse_container_listing(output: &CommandOutput) -> (r: Result<Vec<Container>, AppError>)
    ensures
        ({
            let rows = spec_container_rows(spec_lines(output.stdout@));
            match r {
                Ok(cs) => {
                    &&& output.exit_code == 0
                    &&& spec_first_bad_row(rows, 0) is None
                    &&& cs@.len() == rows.len()
                    &&& forall|i: int|
                        0 <= i < cs@.len() ==> container_matches(#[trigger] cs@[i], rows[i])
                },
                Err(e) => {
                    if output.exit_code != 0 {
                        e matches AppError::Docker(m) && m@ == "Failed to list containers: "@
                            + output.stderr@
                    } else {
                        spec_first_bad_row(rows, 0) matches Some(b) && (
                        e matches AppError::Docker(m) && m@ == "Invalid container line format: "@
                            + rows[b])
                    }
                },
            }
        }),
{
    if !output.success() {
        return Err(
            AppError::Docker(
                String::from_str("Failed to list containers: ").concat(output.stderr.as_str()),
            ),
        );
    }
    let lines = crate::strutil::lines_vec(output.stdout.as_str());
    let ghost ls = spec_lines(output.stdout@);
    let ghost rows = spec_container_rows(ls);
    let mut cs: Vec<Container> = Vec::new();
    let mut i: usize = 0;
    proof {
        assert(ls.take(0) =~= Seq::<Seq<char>>::empty());
        lemma_first_bad_row(rows, 0);
    }
    while i < lines.len()
        invariant
            0 <= i <= lines@.len(),
            lines@.len() == ls.len(),
            forall|j: int| 0 <= j < ls.len() ==> (#[trigger] lines@[j])@ == ls[j],
            ls == spec_lines(output.stdout@),
            rows == spec_container_rows(ls),
            output.exit_code == 0,
            cs@.len() == spec_container_rows(ls.take(i as int)).len(),
            spec_first_bad_row(rows, 0) is None || (spec_first_bad_row(rows, 0) matches Some(b)
                && b >= cs@.len()),
            forall|j: int| 0 <= j < cs@.len() ==> container_matches(#[trigger] cs@[j], rows[j]),
        decreases lines@.len() - i,
    {
        proof {
            assert(ls.take(i as int + 1).drop_last() =~= ls.take(i as int));
            assert(ls.take(i as int + 1).last() == ls[i as int]);
        }
        let trimmed = crate::strutil::trim_str(lines[i].as_str());
        if !trimmed.as_str().is_empty() {
            let ghost len_before = cs@.len() as int;
            proof {
                let pre = spec_container_rows(ls.take(i as int));
                let mid = spec_container_rows(ls.take(i as int + 1));
                assert(mid =~= pre.push(ls[i as int]));
                lemma_rows_prefix(ls, i as int + 1);
                assert(rows.take(mid.len() as int) == mid);
                assert(rows.take(mid.len() as int)[len_before] == rows[len_before]);
                assert(rows[len_before] == ls[i as int]);
            }
            match parse_container_line(lines[i].as_str()) {
                Ok(c) => {
                    cs.push(c);
                    proof {
                        lemma_first_bad_row(rows, 0);
                        match spec_first_bad_row(rows, 0) {
                            Some(b) => {
                                if b == len_before {
                                    assert(line_parses(rows[b]));
                                }
                            },
                            None => {},
                        }
                    }
                },
                Err(e) => {
                    proof {
                        assert(!line_parses(lines@[i as int]@));
                        assert(!line_parses(rows[len_before]));
                        lemma_first_bad_row(rows, 0);
                        match spec_first_bad_row(rows, 0) {
                            Some(b) => {
                                if b > len_before {
                                    assert(line_parses(rows[len_before]));
                                }
                                assert(b == len_before);
                                assert(rows[b] == ls[i as int]);
                            },
                            None => {
                                assert(line_parses(rows[len_before]));
                                assert(false);
                            },
                        }
                    }
                    return Err(e);
                },
            }
        }
        i = i + 1;
    }
    proof {
        assert(ls.take(ls.len() as int) =~= ls);
        lemma_first_bad_row(rows, 0);
        match spec_first_bad_row(rows, 0) {
            Some(b) => {
                assert(container_matches(cs@[b], rows[b]));
                assert(line_parses(rows[b]));
            },
            None => {},
        }
    }
    Ok(cs)
}

/// A prefix of the lines yields a prefix of the rows.
proof fn lemma_rows_prefix(ls: Seq<Seq<char>>, i: int)
    requires
        0 <= i <= ls.len(),
    ensures
        ({
            let pre = spec_container_rows(ls.take(i));
            let all = spec_container_rows(ls);
            pre.len() <= all.len() && all.take(pre.len() as int) == pre
        }),
    decreases ls.len() - i,
{
    let pre = spec_container_rows(ls.take(i));
    let all = spec_container_rows(ls);
    if i == ls.len() {
        assert(ls.take(i) =~= ls);
        assert(all.take(pre.len() as int) =~= pre);
    } else {
        lemma_rows_prefix(ls, i + 1);
        assert(ls.take(i + 1).drop_last() =~= ls.take(i));
        assert(ls.take(i + 1).last() == ls[i]);
        let mid = spec_container_rows(ls.take(i + 1));
        assert(all.take(mid.len() as int) == mid);
        assert forall|j: int| 0 <= j < pre.len() implies all[j] == pre[j] by {
            assert(mid[j] == pre[j]);
            assert(all.take(mid.len() as int)[j] == all[j]);
        }
        assert(all.take(pre.len() as int) =~= pre);
    }
}

/// The first bad row is in range, does not parse, and no row before it
/// is bad; absence means every row parses.
proof fn lemma_first_bad_row(rows: Seq<Seq<char>>, i: int)
    requires
        0 <= i,
    ensures
        match spec_first_bad_row(rows, i) {
            Some(b) => i <= b < rows.len() && !line_parses(rows[b]) && (forall|j: int|
                i <= j < b ==> line_parses(rows[j])),
            None => forall|j: int| i <= j < rows.len() ==> line_parses(rows[j]),
        },
    decreases rows.len() - i + 1,
{
    if i < rows.len() && line_parses(rows[i]) {
        lemma_first_bad_row(rows, i + 1);
    }
}

/// The grouping key of a container: its compose project, or the
/// standalone group.
pub open spec fn spec_stack_key(c: Container) -> Seq<char> {
    match c.project {
        Some(p) => p@,
        None => "standalone"@,
    }
}

/// The containers of `cs` whose grouping key is `k`, in input order.
pub open spec fn spec_group(cs: Seq<Container>, k: Seq<char>) -> Seq<Container>
    decreases cs.len(),
{
    if cs.len() == 0 {
        Seq::empty()
    } else if spec_stack_key(cs.last()) == k {
        spec_group(cs.drop_last(), k).push(cs.last())
    } else {
        spec_group(cs.drop_last(), k)
    }
}

/// How many of the containers are running.
pub open spec fn spec_running_count(cs: Seq<Container>) -> nat
    decreases cs.len(),
{
    if cs.len() == 0 {
        0
    } else if cs.last().status is Running {
        spec_running_count(cs.drop_last()) + 1
    } else {
        spec_running_count(cs.drop_last())
    }
}

/// Lexicographic order on character sequences, as strings compare.
pub open spec fn lex_lt(a: Seq<char>, b: Seq<char>) -> bool
    decreases a.len(),
{
    if b.len() == 0 {
        false
    } else if a.len() == 0 {
        true
    } else if a[0] != b[0] {
        a[0] < b[0]
    } else {
        lex_lt(a.drop_first(), b.drop_first())
    }
}

/// The order of stacks in a listing: by name, with the standalone group
/// last.
pub open spec fn stack_lt(a: Seq<char>, b: Seq<char>) -> bool {
    if a == "standalone"@ {
        false
    } else if b == "standalone"@ {
        true
    } else {
        lex_lt(a, b)
    }
}

fn lex_lt_exec(a: &[char], b: &[char]) -> (r: bool)
    ensures
        r == lex_lt(a@, b@),
{
    let mut i: usize = 0;
    proof {
        assert(a@.skip(0) =~= a@);
        assert(b@.skip(0) =~= b@);
    }
    loop
        invariant
            0 <= i <= a@.len(),
            i <= b@.len(),
            forall|j: int| 0 <= j < i ==> a@[j] == b@[j],
            lex_lt(a@, b@) == lex_lt(a@.skip(i as int), b@.skip(i as int)),
        decreases a@.len() - i,
    {
        proof {
            if i < a@.len() && i < b@.len() {
                assert(a@.skip(i as int)[0] == a@[i as int]);
                assert(b@.skip(i as int)[0] == b@[i as int]);
                assert(a@.skip(i as int).drop_first() =~= a@.skip(i as int + 1));
                assert(b@.skip(i as int).drop_first() =~= b@.skip(i as int + 1));
            }
        }
        if i == b.len() {
            proof {
                assert(b@.skip(i as int) =~= Seq::<char>::empty());
            }
            return false;
        }
        if i == a.len() {
            proof {
                assert(a@.skip(i as int) =~= Seq::<char>::empty());
                assert(b@.skip(i as int).len() > 0);
            }
            return true;
        }
        if a[i] != b[i] {
            return a[i] < b[i];
        }
        i = i + 1;
    }
}

fn stack_lt_exec(a: &str, b: &str) -> (r: bool)
    ensures
        r == stack_lt(a@, b@),
{
    if str_eq(a, "standalone") {
        false
    } else if str_eq(b, "standalone") {
        true
    } else {
        let va = chars_vec(a);
        let vb = chars_vec(b);
        lex_lt_exec(va.as_slice(), vb.as_slice())
    }
}

fn clone_container(c: &Container) -> (r: Container)
    ensures
        r == *c,
{
    Container {
        id: c.id.clone(),
        name: c.name.clone(),
        image: c.image.clone(),
        status: c.status,
        ports: c.ports.clone(),
        created: c.created.clone(),
        project: match &c.project {
            Some(p) => Some(p.clone()),
            None => None,
        },
    }
}

fn stack_key(c: &Container) -> (r: String)
    ensures
        r@ == spec_stack_key(*c),
{
    match &c.project {
        Some(p) => p.clone(),
        None => String::from_str("standalone"),
    }
}

proof fn lemma_group_take_step(cs: Seq<Container>, k: Seq<char>, i: int)
    requires
        0 <= i < cs.len(),
    ensures
        spec_group(cs.take(i + 1), k) == if spec_stack_key(cs[i]) == k {
            spec_group(cs.take(i), k).push(cs[i])
        } else {
            spec_group(cs.take(i), k)
        },
{
    assert(cs.take(i + 1).drop_last() =~= cs.take(i));
    assert(cs.take(i + 1).last() == cs[i]);
}

proof fn lemma_running_take_step(cs: Seq<Container>, i: int)
    requires
        0 <= i < cs.len(),
    ensures
        spec_running_count(cs.take(i + 1)) == if cs[i].status is Running {
            spec_running_count(cs.take(i)) + 1
        } else {
            spec_running_count(cs.take(i))
        },
{
    assert(cs.take(i + 1).drop_last() =~= cs.take(i));
    assert(cs.take(i + 1).last() == cs[i]);
}

/// The containers of `cs` with key `k`, in input order, with their
/// running count.
fn collect_group(cs: &Vec<Container>, k: &str) -> (r: (Vec<Container>, usize))
    ensures
        r.0@ == spec_group(cs@, k@),
        r.1 == spec_running_count(spec_group(cs@, k@)),
{
    let mut group: Vec<Container> = Vec::new();
    let mut running: usize = 0;
    let mut i: usize = 0;
    proof {
        assert(cs@.take(0) =~= Seq::<Container>::empty());
    }
    while i < cs.len()
        invariant
            0 <= i <= cs@.len(),
            group@ == spec_group(cs@.take(i as int), k@),
            running == spec_running_count(spec_group(cs@.take(i as int), k@)),
            running <= group@.len(),
        decreases cs@.len() - i,
    {
        proof {
            lemma_group_take_step(cs@, k@, i as int);
        }
        let ghost old_group = group@;
        let key = stack_key(&cs[i]);
        if str_eq(key.as_str(), k) {
            let c = clone_container(&cs[i]);
            let is_running = matches!(c.status, ContainerStatus::Running);
            group.push(c);
            proof {
                assert(group@.drop_last() =~= old_group);
                assert(group@.last() == cs@[i as int]);
            }
            // the vector's length, a usize, bounds the running counter
            let glen = group.len();
            if is_running && running < glen {
                running = running + 1;
            }
        }
        i = i + 1;
    }
    proof {
        assert(cs@.take(cs@.len() as int) =~= cs@);
    }
    (group, running)
}

/// Groups containers by compose stack: one stack per distinct grouping
/// key, holding that key's containers in input order, sorted by name with
/// the standalone group last.
/// Some key in the list reads `k`.
pub open spec fn key_in(keys: Seq<String>, k: Seq<char>) -> bool {
    exists|j: int| 0 <= j < keys.len() && (#[trigger] keys[j])@ == k
}

/// Some stack in the list is named `k`.
pub open spec fn stack_name_in(stacks: Seq<ComposeStack>, k: Seq<char>) -> bool {
    exists|j: int| 0 <= j < stacks.len() && (#[trigger] stacks[j]).name@ == k
}

/// The distinct grouping keys of the containers, sorted by
/// [`stack_lt`]: every container's key appears, and every key is some
/// container's.
#[verifier::rlimit(50)]
fn collect_keys(containers: &Vec<Container>) -> (keys: Vec<String>)
    ensures
        forall|a: int, b: int|
            0 <= a < b < keys@.len() ==> stack_lt((#[trigger] keys@[a])@, (#[trigger] keys@[b])@),
        forall|c: int|
            0 <= c < containers@.len() ==> key_in(
                keys@,
                spec_stack_key(#[trigger] containers@[c]),
            ),
        forall|k: Seq<char>|
            #[trigger] key_in(keys@, k) ==> exists|c: int|
                0 <= c < containers@.len() && spec_stack_key(#[trigger] containers@[c]) == k,
{
    let mut keys: Vec<String> = Vec::new();
    let mut i: usize = 0;
    while i < containers.len()
        invariant
            0 <= i <= containers@.len(),
            forall|a: int, b: int|
                0 <= a < b < keys@.len() ==> stack_lt(
                    (#[trigger] keys@[a])@,
                    (#[trigger] keys@[b])@,
                ),
            forall|c: int|
                0 <= c < i ==> key_in(keys@, spec_stack_key(#[trigger] containers@[c])),
            forall|k: Seq<char>|
                #[trigger] key_in(keys@, k) ==> exists|c: int|
                    0 <= c < i && spec_stack_key(#[trigger] containers@[c]) == k,
        decreases containers@.len() - i,
    {
        let ghost keys_before = keys@;
        let key = stack_key(&containers[i]);
        let ghost keyv = key@;
        insert_key(&mut keys, key);
        proof {
            assert forall|c: int| 0 <= c < i + 1 implies key_in(
                keys@,
                spec_stack_key(#[trigger] containers@[c]),
            ) by {
                if c < i {
                    assert(key_in(keys_before, spec_stack_key(containers@[c])));
                } else {
                    assert(spec_stack_key(containers@[c]) == keyv);
                }
            }
            assert forall|k: Seq<char>| #[trigger] key_in(keys@, k) implies exists|c: int|
                0 <= c < i + 1 && spec_stack_key(#[trigger] containers@[c]) == k by {
                if k == keyv {
                    assert(spec_stack_key(containers@[i as int]) == k);
                } else {
                    assert(key_in(keys_before, k));
                }
            }
        }
        i = i + 1;
    }
    keys
}

/// One stack per key, in key order, each holding its key's group.
fn build_stacks(containers: &Vec<Container>, keys: &Vec<String>) -> (r: Vec<ComposeStack>)
    ensures
        r@.len() == keys@.len(),
        forall|a: int| 0 <= a < r@.len() ==> (#[trigger] r@[a]).name@ == keys@[a]@,
        forall|a: int|
            0 <= a < r@.len() ==> {
                &&& (#[trigger] r@[a]).containers@ == spec_group(containers@, r@[a].name@)
                &&& r@[a].total_count == r@[a].containers@.len()
                &&& r@[a].running_count == spec_running_count(r@[a].containers@)
                &&& r@[a].path is None
            },
{
    let mut r: Vec<ComposeStack> = Vec::new();
    let mut j: usize = 0;
    while j < keys.len()
        invariant
            0 <= j <= keys@.len(),
            r@.len() == j,
            forall|a: int| 0 <= a < j ==> (#[trigger] r@[a]).name@ == keys@[a]@,
            forall|a: int|
                0 <= a < j ==> {
                    &&& (#[trigger] r@[a]).containers@ == spec_group(containers@, r@[a].name@)
                    &&& r@[a].total_count == r@[a].containers@.len()
                    &&& r@[a].running_count == spec_running_count(r@[a].containers@)
                    &&& r@[a].path is None
                },
        decreases keys@.len() - j,
    {
        let (group, running) = collect_group(containers, keys[j].as_str());
        let total = group.len();
        r.push(
            ComposeStack {
                name: keys[j].clone(),
                path: None,
                containers: group,
                running_count: running,
                total_count: total,
            },
        );
        j = j + 1;
    }
    r
}

/// Groups containers by compose stack: one stack per distinct grouping
/// key, holding that key's containers in input order, sorted by name with
/// the standalone group last.
pub fn group_by_stack(containers: Vec<Container>) -> (r: Vec<ComposeStack>)
    ensures
        // each stack is exactly its key's group, with its counts
        forall|i: int|
            0 <= i < r@.len() ==> {
                &&& (#[trigger] r@[i]).containers@ == spec_group(containers@, r@[i].name@)
                &&& r@[i].total_count == r@[i].containers@.len()
                &&& r@[i].running_count == spec_running_count(r@[i].containers@)
                &&& r@[i].path is None
                &&& r@[i].containers@.len() > 0
            },
        // strictly sorted: stack names are distinct, standalone last
        forall|i: int, j: int| 0 <= i < j < r@.len() ==> stack_lt(r@[i].name@, r@[j].name@),
        // complete: every container's key appears
        forall|i: int|
            0 <= i < containers@.len() ==> stack_name_in(
                r@,
                spec_stack_key(#[trigger] containers@[i]),
            ),
{
    let keys = collect_keys(&containers);
    let r = build_stacks(&containers, &keys);
    proof {
        // every key in `keys` came from some container, so its group is
        // nonempty
        assert forall|a: int| 0 <= a < r@.len() implies (#[trigger] r@[a]).containers@.len()
            > 0 by {
            assert(r@[a].name@ == keys@[a]@);
            assert(key_in(keys@, keys@[a]@));
            lemma_key_group_nonempty(containers@, r@[a].name@);
        }
        // every container's key is some stack's name
        assert forall|i: int| 0 <= i < containers@.len() implies stack_name_in(
            r@,
            spec_stack_key(#[trigger] containers@[i]),
        ) by {
            assert(key_in(keys@, spec_stack_key(containers@[i])));
            let m = choose|m: int|
                0 <= m < keys@.len() && (#[trigger] keys@[m])@ == spec_stack_key(
                    containers@[i],
                );
            assert(r@[m].name@ == spec_stack_key(containers@[i]));
        }
        // the stacks are sorted because the keys are
        assert forall|i: int, j: int| 0 <= i < j < r@.len() implies stack_lt(
            (#[trigger] r@[i]).name@,
            (#[trigger] r@[j]).name@,
        ) by {
            assert(r@[i].name@ == keys@[i]@);
            assert(r@[j].name@ == keys@[j]@);
        }
    }
    r
}

/// A key that some container carries has a nonempty group.
proof fn lemma_key_group_nonempty(cs: Seq<Container>, k: Seq<char>)
    requires
        exists|i: int| 0 <= i < cs.len() && spec_stack_key(#[trigger] cs[i]) == k,
    ensures
        spec_group(cs, k).len() > 0,
    decreases cs.len(),
{
    let i = choose|i: int| 0 <= i < cs.len() && spec_stack_key(#[trigger] cs[i]) == k;
    if spec_stack_key(cs.last()) == k {
    } else {
        assert(i < cs.len() - 1);
        assert(cs.drop_last()[i] == cs[i]);
        lemma_key_group_nonempty(cs.drop_last(), k);
    }
}

/// Inserts `key` into the strictly `stack_lt`-sorted `keys`, keeping them
/// sorted and distinct; a present key changes nothing.
fn insert_key(keys: &mut Vec<String>, key: String)
    requires
        forall|a: int, b: int|
            0 <= a < b < old(keys)@.len() ==> stack_lt(old(keys)@[a]@, old(keys)@[b]@),
    ensures
        forall|a: int, b: int|
            0 <= a < b < final(keys)@.len() ==> stack_lt(final(keys)@[a]@, final(keys)@[b]@),
        key_in(final(keys)@, key@),
        // old keys survive
        forall|k: Seq<char>| #[trigger] key_in(old(keys)@, k) ==> key_in(final(keys)@, k),
        // and nothing but the new key is added
        forall|k: Seq<char>|
            #[trigger] key_in(final(keys)@, k) ==> k == key@ || key_in(old(keys)@, k),
{
    let ghost keys0 = keys@;
    let mut pos: usize = 0;
    while pos < keys.len() && stack_lt_exec(keys[pos].as_str(), key.as_str())
        invariant
            0 <= pos <= keys@.len(),
            keys@ == keys0,
            forall|a: int, b: int| 0 <= a < b < keys@.len() ==> stack_lt(keys@[a]@, keys@[b]@),
            forall|a: int| 0 <= a < pos ==> stack_lt(#[trigger] keys@[a]@, key@),
        decreases keys@.len() - pos,
    {
        pos = pos + 1;
    }
    if pos < keys.len() && str_eq(keys[pos].as_str(), key.as_str()) {
        proof {
            assert(keys@[pos as int]@ == key@);
            assert(key_in(keys@, key@));
        }
        return ;
    }
    // key is absent: everything before pos is below it, everything from
    // pos on is above it
    proof {
        assert forall|a: int| pos <= a < keys@.len() implies stack_lt(
            key@,
            #[trigger] keys@[a]@,
        ) by {
            assert(!stack_lt(keys@[pos as int]@, key@));
            assert(keys@[pos as int]@ != key@);
            lemma_stack_lt_total(key@, keys@[pos as int]@);
            assert(stack_lt(key@, keys@[pos as int]@));
            if a > pos as int {
                assert(stack_lt(keys@[pos as int]@, keys@[a]@));
                lemma_stack_lt_trans(key@, keys@[pos as int]@, keys@[a]@);
            }
        }
    }
    keys.insert(pos, key);
    proof {
        assert forall|a: int, b: int| 0 <= a < b < keys@.len() implies stack_lt(
            keys@[a]@,
            keys@[b]@,
        ) by {
            if b < pos as int {
            } else if a < pos as int && b == pos as int {
            } else if a == pos as int {
                assert(keys@[b]@ == keys0[b - 1]@);
            } else if a < pos as int && b > pos as int {
                assert(keys@[a]@ == keys0[a]@);
                assert(keys@[b]@ == keys0[b - 1]@);
            } else {
                assert(keys@[a]@ == keys0[a - 1]@);
                assert(keys@[b]@ == keys0[b - 1]@);
            }
        }
        assert(keys@[pos as int]@ == key@);
        assert(key_in(keys@, key@));
        assert forall|k: Seq<char>| #[trigger] key_in(keys0, k) implies key_in(keys@, k) by {
            let j = choose|j: int| 0 <= j < keys0.len() && (#[trigger] keys0[j])@ == k;
            if j < pos as int {
                assert(keys@[j]@ == k);
            } else {
                assert(keys@[j + 1]@ == k);
            }
        }
        assert forall|k: Seq<char>| #[trigger] key_in(keys@, k) implies k == key@ || key_in(
            keys0,
            k,
        ) by {
            let m = choose|m: int| 0 <= m < keys@.len() && (#[trigger] keys@[m])@ == k;
            if m < pos as int {
                assert(keys0[m]@ == k);
            } else if m > pos as int {
                assert(keys0[m - 1]@ == k);
            }
        }
    }
}

/// `stack_lt` orders any two distinct keys one way or the other.
proof fn lemma_stack_lt_total(a: Seq<char>, b: Seq<char>)
    ensures
        a == b || stack_lt(a, b) || stack_lt(b, a),
    decreases a.len() + b.len(),
{
    if a != "standalone"@ && b != "standalone"@ {
        lemma_lex_lt_total(a, b);
    }
}

proof fn lemma_lex_lt_total(a: Seq<char>, b: Seq<char>)
    ensures
        a == b || lex_lt(a, b) || lex_lt(b, a),
    decreases a.len() + b.len(),
{
    if a.len() > 0 && b.len() > 0 && a[0] == b[0] {
        lemma_lex_lt_total(a.drop_first(), b.drop_first());
        if a.drop_first() == b.drop_first() {
            assert forall|i: int| 0 <= i < a.len() implies a[i] == b[i] by {
                if i >= 1 {
                    assert(a[i] == a.drop_first()[i - 1]);
                    assert(b[i] == b.drop_first()[i - 1]);
                }
            }
            assert(a =~= b);
        }
    } else if a.len() == 0 && b.len() == 0 {
        assert(a =~= b);
    }
}

proof fn lemma_lex_lt_trans(a: Seq<char>, b: Seq<char>, c: Seq<char>)
    requires
        lex_lt(a, b),
        lex_lt(b, c),
    ensures
        lex_lt(a, c),
    decreases a.len(),
{
    if a.len() > 0 && b.len() > 0 && c.len() > 0 && a[0] == b[0] && b[0] == c[0] {
        lemma_lex_lt_trans(a.drop_first(), b.drop_first(), c.drop_first());
    }
}

proof fn lemma_stack_lt_trans(a: Seq<char>, b: Seq<char>, c: Seq<char>)
    requires
        stack_lt(a, b),
        stack_lt(b, c),
    ensures
        stack_lt(a, c),
{
    if a != "standalone"@ && b != "standalone"@ && c != "standalone"@ {
        lemma_lex_lt_trans(a, b, c);
    }
}

proof fn lemma_lex_lt_irrefl(a: Seq<char>)
    ensures
        !lex_lt(a, a),
    decreases a.len(),
{
    if a.len() > 0 {
        lemma_lex_lt_irrefl(a.drop_first());
    }
}

/// Two keys below one another are equal only never: used to rule out a
/// duplicate at the insertion point.
proof fn lemma_stack_lt_irrefl(a: Seq<char>, b: Seq<char>)
    requires
        stack_lt(a, b),
    ensures
        a != b,
{
    if a == b {
        lemma_lex_lt_irrefl(a);
    }
}

} // verus!
