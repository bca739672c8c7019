//! Parsing of Proxmox tool output: `pct list`, `qm list`, `pct status`.

use vstd::prelude::*;
use vstd::string::StringExecFns;

use crate::strutil::{
    chars_vec, parse_u32, spec_lines, spec_parse_u32, spec_split_ws, spec_starts_with, spec_trim,
    spec_trim_start_seq, split_ws, starts_with, string_from_chars, trim_chars, trim_start_seq,
};

verus! {

/// Container status from Proxmox.
#[derive(Debug, Clone)]
pub struct ContainerInfo {
    pub ctid: u32,
    pub name: String,
    pub status: String,
}

/// Backup job information, one entry of the Proxmox jobs file.
#[derive(Debug, Clone)]
pub struct BackupJob {
    pub id: String,
    pub schedule: String,
    pub storage: String,
    pub vmids: String,
    pub enabled: bool,
    pub mode: String,
    pub comment: Option<String>,
}

/// Parses a line of `pct list` output: VMID, status, an optional lock
/// column, and the name last.
pub fn parse_pct_list_line(line: &str) -> (r: Option<ContainerInfo>)
    ensures
        ({
            let ps = spec_split_ws(line@);
            match r {
                Some(ci) => {
                    &&& ps.len() >= 3
                    &&& spec_parse_u32(ps[0]) == Some(ci.ctid)
                    &&& ci.status@ == ps[1]
                    &&& ci.name@ == if ps.len() > 3 {
                        ps[3]
                    } else {
                        ps[2]
                    }
                },
                None => ps.len() < 3 || spec_parse_u32(ps[0]) is None,
            }
        }),
{
    let v = chars_vec(line);
    let parts = split_ws(v.as_slice());
    if parts.len() < 3 {
        return None;
    }
    let ctid = match parse_u32(parts[0].as_slice()) {
        Some(n) => n,
        None => {
            return None;
        },
    };
    let status = string_from_chars(parts[1].as_slice());
    let name = if parts.len() > 3 {
        string_from_chars(parts[3].as_slice())
    } else {
        string_from_chars(parts[2].as_slice())
    };
    Some(ContainerInfo { ctid, name, status })
}

/// Parses a line of `qm list` output: VMID, name and status first.
pub fn parse_qm_list_line(line: &str) -> (r: Option<ContainerInfo>)
    ensures
        ({
            let ps = spec_split_ws(line@);
            match r {
                Some(ci) => {
                    &&& ps.len() >= 3
                    &&& spec_parse_u32(ps[0]) == Some(ci.ctid)
                    &&& ci.name@ == ps[1]
                    &&& ci.status@ == ps[2]
                },
                None => ps.len() < 3 || spec_parse_u32(ps[0]) is None,
            }
        }),
{
    let v = chars_vec(line);
    let parts = split_ws(v.as_slice());
    if parts.len() < 3 {
        return None;
    }
    let ctid = match parse_u32(parts[0].as_slice()) {
        Some(n) => n,
        None => {
            return None;
        },
    };
    let name = string_from_chars(parts[1].as_slice());
    let status = string_from_chars(parts[2].as_slice());
    Some(ContainerInfo { ctid, name, status })
}

/// The index of the first line that begins with `status:`, if any.
pub open spec fn spec_first_status_line(ls: Seq<Seq<char>>) -> Option<int>
    decreases ls.len(),
{
    if ls.len() == 0 {
        None
    } else if spec_starts_with(ls[0], "status:"@) {
        Some(0)
    } else {
        match spec_first_status_line(ls.drop_first()) {
            Some(i) => Some(i + 1),
            None => None,
        }
    }
}

proof fn lemma_first_status_line(ls: Seq<Seq<char>>)
    ensures
        match spec_first_status_line(ls) {
            Some(i) => 0 <= i < ls.len() && spec_starts_with(ls[i], "status:"@) && (forall|j: int|
                0 <= j < i ==> !spec_starts_with(ls[j], "status:"@)),
            None => forall|j: int| 0 <= j < ls.len() ==> !spec_starts_with(ls[j], "status:"@),
        },
    decreases ls.len(),
{
    if ls.len() > 0 && !spec_starts_with(ls[0], "status:"@) {
        let rest = ls.drop_first();
        lemma_first_status_line(rest);
        match spec_first_status_line(rest) {
            Some(i) => {
                assert(ls[i + 1] == rest[i]);
                assert forall|j: int| 0 <= j < i + 1 implies !spec_starts_with(
                    ls[j],
                    "status:"@,
                ) by {
                    if j >= 1 {
                        assert(ls[j] == rest[j - 1]);
                    }
                }
            },
            None => {
                assert forall|j: int| 0 <= j < ls.len() implies !spec_starts_with(
                    ls[j],
                    "status:"@,
                ) by {
                    if j >= 1 {
                        assert(ls[j] == rest[j - 1]);
                    }
                }
            },
        }
    }
}

/// Extracts the status word out of `pct status` output: the first line
/// beginning with `status:`, with that prefix and surrounding white space
/// removed; `unknown` when no such line exists.
pub fn parse_container_status(stdout: &str) -> (r: String)
    ensures
        ({
            let ls = spec_lines(stdout@);
            match spec_first_status_line(ls) {
                Some(i) => r@ == spec_trim(spec_trim_start_seq(ls[i], "status:"@)),
                None => r@ == "unknown"@,
            }
        }),
{
    let ghost ls = spec_lines(stdout@);
    proof {
        lemma_first_status_line(ls);
    }
    let lines = crate::strutil::lines_vec(stdout);
    let prefix = chars_vec("status:");
    let mut i: usize = 0;
    while i < lines.len()
        invariant
            0 <= i <= lines@.len(),
            ls == spec_lines(stdout@),
            lines@.len() == ls.len(),
            forall|j: int| 0 <= j < lines@.len() ==> lines@[j]@ == ls[j],
            prefix@ == "status:"@,
            forall|j: int| 0 <= j < i ==> !spec_starts_with(ls[j], "status:"@),
            match spec_first_status_line(ls) {
                Some(k) => 0 <= k < ls.len() && spec_starts_with(ls[k], "status:"@) && (forall|
                    j: int,
                |
                    0 <= j < k ==> !spec_starts_with(ls[j], "status:"@)),
                None => forall|j: int| 0 <= j < ls.len() ==> !spec_starts_with(ls[j], "status:"@),
            },
        decreases lines@.len() - i,
    {
        let lv = chars_vec(lines[i].as_str());
        if starts_with(lv.as_slice(), prefix.as_slice()) {
            proof {
                assert(spec_starts_with(ls[i as int], "status:"@));
                match spec_first_status_line(ls) {
                    Some(k) => {
                        if k < i as int {
                            assert(!spec_starts_with(ls[k], "status:"@));
                        } else if k > i as int {
                            assert(!spec_starts_with(ls[i as int], "status:"@));
                        }
                    },
                    None => {
                        assert(!spec_starts_with(ls[i as int], "status:"@));
                    },
                }
                assert(spec_first_status_line(ls) == Some(i as int));
            }
            let stripped = trim_start_seq(lv.as_slice(), prefix.as_slice());
            let trimmed = trim_chars(stripped.as_slice());
            return string_from_chars(trimmed.as_slice());
        }
        i = i + 1;
    }
    String::from_str("unknown")
}

/// The mathematical value of one backup job entry.
pub ghost struct JobView {
    pub id: Seq<char>,
    pub schedule: Seq<char>,
    pub storage: Seq<char>,
    pub vmids: Seq<char>,
    pub enabled: bool,
    pub mode: Seq<char>,
    pub comment: Option<Seq<char>>,
}

/// A fresh job entry: enabled, in snapshot mode, everything else empty.
pub open spec fn spec_job_new(id: Seq<char>) -> JobView {
    JobView {
        id: id,
        schedule: Seq::empty(),
        storage: Seq::empty(),
        vmids: Seq::empty(),
        enabled: true,
        mode: "snapshot"@,
        comment: None,
    }
}

/// One `key value` line applied to the current job entry; a line without
/// a space, or with an unknown key, changes nothing.
pub open spec fn spec_job_update(j: JobView, line: Seq<char>) -> JobView {
    match crate::strutil::spec_find_char(line, ' ') {
        Some(k) => {
            let key = line.take(k);
            let value = line.skip(k + 1);
            if key == "schedule"@ {
                JobView { schedule: value, ..j }
            } else if key == "storage"@ {
                JobView { storage: value, ..j }
            } else if key == "vmid"@ || key == "pool"@ {
                JobView { vmids: value, ..j }
            } else if key == "all"@ {
                JobView { vmids: "all"@, ..j }
            } else if key == "enabled"@ {
                JobView { enabled: value != "0"@, ..j }
            } else if key == "mode"@ {
                JobView { mode: value, ..j }
            } else if key == "comment"@ {
                JobView { comment: Some(value), ..j }
            } else {
                j
            }
        },
        None => j,
    }
}

/// The job entries of the lines from `i` on, with the entry currently
/// being filled: a `vzdump:` line finishes the current entry and starts
/// the next; other lines fill the current one; the input's end finishes
/// the last.
pub open spec fn spec_jobs_from(ls: Seq<Seq<char>>, i: int, cur: Option<JobView>) -> Seq<JobView>
    decreases ls.len() - i,
{
    if i < 0 || i >= ls.len() {
        match cur {
            Some(j) => seq![j],
            None => Seq::empty(),
        }
    } else {
        let t = spec_trim(ls[i]);
        if spec_starts_with(t, "vzdump:"@) {
            let started = spec_job_new(spec_trim(spec_trim_start_seq(t, "vzdump:"@)));
            match cur {
                Some(j) => seq![j] + spec_jobs_from(ls, i + 1, Some(started)),
                None => spec_jobs_from(ls, i + 1, Some(started)),
            }
        } else {
            match cur {
                Some(j) => spec_jobs_from(ls, i + 1, Some(spec_job_update(j, t))),
                None => spec_jobs_from(ls, i + 1, None),
            }
        }
    }
}

/// A built job equals a job entry value, field for field.
pub open spec fn job_matches(b: BackupJob, v: JobView) -> bool {
    &&& b.id@ == v.id
    &&& b.schedule@ == v.schedule
    &&& b.storage@ == v.storage
    &&& b.vmids@ == v.vmids
    &&& b.enabled == v.enabled
    &&& b.mode@ == v.mode
    &&& match (b.comment, v.comment) {
        (Some(a), Some(c)) => a@ == c,
        (None, None) => true,
        _ => false,
    }
}

/// Parses the scheduled backup jobs out of the Proxmox jobs file text.
pub fn parse_backup_jobs(text: &str) -> (r: Vec<BackupJob>)
    ensures
        ({
            let js = spec_jobs_from(spec_lines(text@), 0, None);
            r@.len() == js.len() && (forall|i: int|
                0 <= i < r@.len() ==> job_matches(#[trigger] r@[i], js[i]))
        }),
{
    let lines = crate::strutil::lines_vec(text);
    let ghost ls = spec_lines(text@);
    let ghost total = spec_jobs_from(ls, 0, None);
    let mut jobs: Vec<BackupJob> = Vec::new();
    let mut current: Option<BackupJob> = None;
    let ghost mut cur_view: Option<JobView> = None;
    let prefix = chars_vec("vzdump:");
    let mut i: usize = 0;
    proof {
        assert(total.take(0) =~= Seq::<JobView>::empty());
        assert(total =~= total.take(0) + spec_jobs_from(ls, 0, None));
    }
    while i < lines.len()
        invariant
            0 <= i <= lines@.len(),
            lines@.len() == ls.len(),
            forall|j: int| 0 <= j < ls.len() ==> (#[trigger] lines@[j])@ == ls[j],
            prefix@ == "vzdump:"@,
            total == spec_jobs_from(ls, 0, None),
            match (current, cur_view) {
                (Some(b), Some(v)) => job_matches(b, v),
                (None, None) => true,
                _ => false,
            },
            jobs@.len() + spec_jobs_from(ls, i as int, cur_view).len() == total.len(),
            total == total.take(jobs@.len() as int) + spec_jobs_from(ls, i as int, cur_view),
            forall|j: int| 0 <= j < jobs@.len() ==> job_matches(#[trigger] jobs@[j], total[j]),
        decreases lines@.len() - i,
    {
        let lv = chars_vec(lines[i].as_str());
        let t = trim_chars(lv.as_slice());
        if starts_with(t.as_slice(), prefix.as_slice()) {
            let stripped = trim_start_seq(t.as_slice(), prefix.as_slice());
            let id_chars = trim_chars(stripped.as_slice());
            let id = string_from_chars(id_chars.as_slice());
            let started = BackupJob {
                id,
                schedule: String::new(),
                storage: String::new(),
                vmids: String::new(),
                enabled: true,
                mode: String::from_str("snapshot"),
                comment: None,
            };
            let ghost started_view = spec_job_new(spec_trim(spec_trim_start_seq(
                spec_trim(ls[i as int]),
                "vzdump:"@,
            )));
            proof {
                assert(job_matches(started, started_view));
            }
            let prev = current;
            current = Some(started);
            let ghost prev_view = cur_view;
            proof {
                cur_view = Some(started_view);
            }
            match prev {
                Some(job) => {
                    let ghost len_before = jobs@.len() as int;
                    jobs.push(job);
                    proof {
                        let rest = spec_jobs_from(ls, i as int, prev_view);
                        assert(rest == seq![prev_view->0] + spec_jobs_from(
                            ls,
                            i as int + 1,
                            cur_view,
                        ));
                        assert((seq![prev_view->0] + spec_jobs_from(ls, i as int + 1, cur_view))[0]
                            == prev_view->0);
                        assert(len_before <= total.len());
                        assert(total.take(len_before).len() == len_before);
                        assert((total.take(len_before) + rest)[len_before] == rest[0]);
                        assert(total[len_before] == prev_view->0);
                        assert(total.take(len_before + 1) =~= total.take(len_before).push(
                            total[len_before],
                        ));
                        assert(total =~= total.take(jobs@.len() as int) + spec_jobs_from(
                            ls,
                            i as int + 1,
                            cur_view,
                        ));
                    }
                },
                None => {
                    proof {
                        assert(spec_jobs_from(ls, i as int, prev_view) == spec_jobs_from(
                            ls,
                            i as int + 1,
                            cur_view,
                        ));
                    }
                },
            }
        } else {
            match &mut current {
                Some(job) => {
                    let ghost jv = cur_view->0;
                    update_job(job, t.as_slice(), Ghost(jv));
                    proof {
                        cur_view = Some(spec_job_update(jv, spec_trim(ls[i as int])));
                    }
                },
                None => {},
            }
        }
        i = i + 1;
    }
    proof {
        assert(ls.len() <= i);
    }
    match current {
        Some(job) => {
            let ghost len_before = jobs@.len() as int;
            jobs.push(job);
            proof {
                let rest = spec_jobs_from(ls, i as int, cur_view);
                assert(rest == seq![cur_view->0]);
                assert(len_before <= total.len());
                assert(total.take(len_before).len() == len_before);
                assert((total.take(len_before) + rest)[len_before] == rest[0]);
                assert(total[len_before] == cur_view->0);
                assert(total.take(len_before + 1) =~= total.take(len_before).push(
                    total[len_before],
                ));
                assert(total =~= total.take(jobs@.len() as int));
            }
        },
        None => {
            proof {
                assert(spec_jobs_from(ls, i as int, cur_view) =~= Seq::<JobView>::empty());
                assert(total =~= total.take(jobs@.len() as int));
            }
        },
    }
    jobs
}

/// Applies one `key value` line to the job being filled.
fn update_job(job: &mut BackupJob, line: &[char], Ghost(v): Ghost<JobView>)
    requires
        job_matches(*old(job), v),
    ensures
        job_matches(*final(job), spec_job_update(v, line@)),
{
    let k = match crate::strutil::find_char_index(line, ' ') {
        Some(k) => k,
        None => {
            return ;
        },
    };
    let n = line.len();
    let key = vstd::slice::slice_to_vec(vstd::slice::slice_subrange(line, 0, k));
    let value_chars = vstd::slice::slice_to_vec(vstd::slice::slice_subrange(line, k + 1, n));
    proof {
        assert(key@ =~= line@.take(k as int));
        assert(value_chars@ =~= line@.skip(k as int + 1));
    }
    let value = string_from_chars(value_chars.as_slice());
    let key_str = string_from_chars(key.as_slice());
    proof {
        // the key words are pairwise distinct
        reveal_strlit("schedule");
        reveal_strlit("storage");
        reveal_strlit("vmid");
        reveal_strlit("pool");
        reveal_strlit("all");
        reveal_strlit("enabled");
        reveal_strlit("mode");
        reveal_strlit("comment");
    }
    if crate::strutil::str_eq(key_str.as_str(), "schedule") {
        job.schedule = value;
    } else if crate::strutil::str_eq(key_str.as_str(), "storage") {
        job.storage = value;
    } else if crate::strutil::str_eq(key_str.as_str(), "vmid") || crate::strutil::str_eq(
        key_str.as_str(),
        "pool",
    ) {
        job.vmids = value;
    } else if crate::strutil::str_eq(key_str.as_str(), "all") {
        job.vmids = String::from_str("all");
    } else if crate::strutil::str_eq(key_str.as_str(), "enabled") {
        job.enabled = !crate::strutil::str_eq(value.as_str(), "0");
    } else if crate::strutil::str_eq(key_str.as_str(), "mode") {
        job.mode = value;
    } else if crate::strutil::str_eq(key_str.as_str(), "comment") {
        job.comment = Some(value);
    }
}

} // verus!
