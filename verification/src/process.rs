//! Tracking of running code-block processes: a map from block id to process
//! id. Starting and terminating the processes themselves is the caller's
//! business; the manager only decides which pid a block's process has, and
//! which pid must be terminated when a block is re-run or cancelled.

use vstd::prelude::*;

use crate::strutil::str_eq;

verus! {

/// Result of one code block execution.
#[derive(Debug, Clone)]
pub struct CodeExecutionResult {
    pub stdout: String,
    pub stderr: String,
    pub exit_code: i32,
}

/// The default interpreter for a language tag.
pub open spec fn default_interpreter_spec(language: Seq<char>) -> Seq<char> {
    if language == "shell"@ {
        "bash"@
    } else if language == "python"@ {
        "python3"@
    } else if language == "ruby"@ {
        "ruby"@
    } else {
        "sh"@
    }
}

/// The interpreter a language runs under when none is configured.
pub fn get_default_interpreter(language: &str) -> (r: &'static str)
    ensures
        r@ == default_interpreter_spec(language@),
{
    if str_eq(language, "shell") {
        "bash"
    } else if str_eq(language, "python") {
        "python3"
    } else if str_eq(language, "ruby") {
        "ruby"
    } else {
        "sh"
    }
}

/// The map an association list of `(block id, pid)` pairs denotes; a later
/// pair wins, though the manager keeps ids unique.
pub closed spec fn pids_map(s: Seq<(String, u32)>) -> Map<Seq<char>, u32>
    decreases s.len(),
{
    if s.len() == 0 {
        Map::empty()
    } else {
        pids_map(s.drop_last()).insert(s.last().0@, s.last().1)
    }
}

proof fn lemma_pids_map_domain(s: Seq<(String, u32)>, k: Seq<char>)
    ensures
        pids_map(s).contains_key(k) <==> exists|i: int| 0 <= i < s.len() && s[i].0@ == k,
    decreases s.len(),
{
    if s.len() > 0 {
        lemma_pids_map_domain(s.drop_last(), k);
        let t = s.drop_last();
        if pids_map(s).contains_key(k) {
            if s.last().0@ == k {
                assert(s[s.len() - 1].0@ == k);
            } else {
                let i = choose|i: int| 0 <= i < t.len() && t[i].0@ == k;
                assert(s[i].0@ == k);
            }
        }
        if exists|i: int| 0 <= i < s.len() && s[i].0@ == k {
            let i = choose|i: int| 0 <= i < s.len() && s[i].0@ == k;
            if i < s.len() - 1 {
                assert(t[i].0@ == k);
            }
        }
    }
}

/// Pairwise distinct block ids.
pub open spec fn unique_keys(s: Seq<(String, u32)>) -> bool {
    forall|i: int, j: int| 0 <= i < j < s.len() ==> s[i].0@ != s[j].0@
}

proof fn lemma_pids_map_value(s: Seq<(String, u32)>, i: int)
    requires
        unique_keys(s),
        0 <= i < s.len(),
    ensures
        pids_map(s).contains_key(s[i].0@),
        pids_map(s)[s[i].0@] == s[i].1,
    decreases s.len(),
{
    if i == s.len() - 1 {
    } else {
        let t = s.drop_last();
        assert(t[i] == s[i]);
        lemma_pids_map_value(t, i);
        assert(s.last().0@ != s[i].0@);
    }
}

proof fn lemma_pids_map_remove(s: Seq<(String, u32)>, i: int)
    requires
        unique_keys(s),
        0 <= i < s.len(),
    ensures
        pids_map(s.remove(i)) == pids_map(s).remove(s[i].0@),
    decreases s.len(),
{
    let k = s[i].0@;
    let t = s.drop_last();
    if i == s.len() - 1 {
        assert(s.remove(i) =~= t);
        lemma_pids_map_domain(t, k);
        assert(!pids_map(t).contains_key(k));
        assert(pids_map(t) =~= pids_map(t).insert(k, s.last().1).remove(k));
    } else {
        assert(t[i] == s[i]);
        lemma_pids_map_remove(t, i);
        let r = s.remove(i);
        assert(r.drop_last() =~= t.remove(i));
        assert(r.last() == s.last());
        assert(pids_map(r) == pids_map(t.remove(i)).insert(s.last().0@, s.last().1));
        assert(s.last().0@ != k);
        assert(pids_map(t).remove(k).insert(s.last().0@, s.last().1) =~= pids_map(t).insert(
            s.last().0@,
            s.last().1,
        ).remove(k));
    }
}

/// Tracks running processes by block id.
#[derive(Debug)]
pub struct ProcessManager {
    pids: Vec<(String, u32)>,
}

impl View for ProcessManager {
    type V = Map<Seq<char>, u32>;

    closed spec fn view(&self) -> Map<Seq<char>, u32> {
        pids_map(self.pids@)
    }
}

impl ProcessManager {
    /// Well-formedness: each block id is tracked at most once.
    pub closed spec fn wf(&self) -> bool {
        unique_keys(self.pids@)
    }

    /// An empty manager.
    pub fn new() -> (r: Self)
        ensures
            r.wf(),
            r@ == Map::<Seq<char>, u32>::empty(),
    {
        ProcessManager { pids: Vec::new() }
    }

    fn find_position(&self, block_id: &str) -> (r: Option<usize>)
        ensures
            r matches Some(i) ==> 0 <= i < self.pids@.len() && self.pids@[i as int].0@
                == block_id@,
            r is None ==> forall|j: int|
                0 <= j < self.pids@.len() ==> self.pids@[j].0@ != block_id@,
    {
        let n = self.pids.len();
        let mut i: usize = 0;
        while i < n
            invariant
                0 <= i <= n,
                n == self.pids@.len(),
                forall|j: int| 0 <= j < i ==> self.pids@[j].0@ != block_id@,
            decreases n - i,
        {
            if str_eq(self.pids[i].0.as_str(), block_id) {
                return Some(i);
            }
            i = i + 1;
        }
        None
    }

    /// Tracks a block's process. Returns the pid of a process previously
    /// tracked for the block, which the caller must terminate, as tracking
    /// replaces it.
    pub fn track(&mut self, block_id: String, pid: u32) -> (prev: Option<u32>)
        requires
            old(self).wf(),
        ensures
            final(self).wf(),
            final(self)@ == old(self)@.insert(block_id@, pid),
            prev matches Some(p) ==> old(self)@.contains_key(block_id@) && old(self)@[block_id@]
                == p,
            prev is None ==> !old(self)@.contains_key(block_id@),
    {
        let ghost s0 = self.pids@;
        let prev = match self.find_position(block_id.as_str()) {
            Some(i) => {
                proof {
                    lemma_pids_map_value(s0, i as int);
                    lemma_pids_map_remove(s0, i as int);
                }
                let (_, old_pid) = self.pids.remove(i);
                Some(old_pid)
            },
            None => {
                proof {
                    lemma_pids_map_domain(s0, block_id@);
                }
                None
            },
        };
        let ghost s1 = self.pids@;
        self.pids.push((block_id, pid));
        proof {
            let s2 = self.pids@;
            assert(s2.drop_last() =~= s1);
            assert(pids_map(s2) == pids_map(s1).insert(s2.last().0@, s2.last().1));
            match prev {
                Some(_) => {
                    let i = choose|i: int|
                        0 <= i < s0.len() && s0[i].0@ == s2.last().0@ && s1 == s0.remove(i);
                    assert(pids_map(s1) == pids_map(s0).remove(s2.last().0@));
                    assert(pids_map(s2) =~= pids_map(s0).insert(s2.last().0@, s2.last().1));
                    assert forall|a: int, b: int| 0 <= a < b < s1.len() implies s1[a].0@
                        != s1[b].0@ by {
                        if b < i {
                        } else if a < i {
                            assert(s1[b] == s0[b + 1]);
                        } else {
                            assert(s1[a] == s0[a + 1]);
                            assert(s1[b] == s0[b + 1]);
                        }
                    }
                    assert forall|j: int| 0 <= j < s1.len() implies s1[j].0@ != s2.last().0@ by {
                        if j < i {
                        } else {
                            assert(s1[j] == s0[j + 1]);
                        }
                    }
                    assert(unique_keys(s2));
                },
                None => {
                    assert(unique_keys(s2));
                },
            }
        }
        prev
    }

    /// Stops tracking a block, without asking for its process's termination.
    pub fn untrack(&mut self, block_id: &str)
        requires
            old(self).wf(),
        ensures
            final(self).wf(),
            final(self)@ == old(self)@.remove(block_id@),
    {
        let ghost s0 = self.pids@;
        match self.find_position(block_id) {
            Some(i) => {
                proof {
                    lemma_pids_map_remove(s0, i as int);
                }
                self.pids.remove(i);
                proof {
                    let s1 = self.pids@;
                    let ii = i as int;
                    assert forall|a: int, b: int| 0 <= a < b < s1.len() implies s1[a].0@
                        != s1[b].0@ by {
                        if b < ii {
                        } else if a < ii {
                            assert(s1[b] == s0[b + 1]);
                        } else {
                            assert(s1[a] == s0[a + 1]);
                            assert(s1[b] == s0[b + 1]);
                        }
                    }
                }
            },
            None => {
                proof {
                    lemma_pids_map_domain(s0, block_id@);
                    assert(!pids_map(s0).contains_key(block_id@));
                    assert(pids_map(s0) =~= pids_map(s0).remove(block_id@));
                }
            },
        }
    }

    /// Removes a block's process from tracking and hands back its pid, which
    /// the caller must terminate; `None` when no process is tracked for the
    /// block.
    pub fn kill(&mut self, block_id: &str) -> (r: Option<u32>)
        requires
            old(self).wf(),
        ensures
            final(self).wf(),
            final(self)@ == old(self)@.remove(block_id@),
            r matches Some(p) ==> old(self)@.contains_key(block_id@) && old(self)@[block_id@]
                == p,
            r is None ==> !old(self)@.contains_key(block_id@),
    {
        let ghost s0 = self.pids@;
        match self.find_position(block_id) {
            Some(i) => {
                proof {
                    lemma_pids_map_value(s0, i as int);
                    lemma_pids_map_remove(s0, i as int);
                }
                let (_, pid) = self.pids.remove(i);
                proof {
                    let s1 = self.pids@;
                    let ii = i as int;
                    assert forall|a: int, b: int| 0 <= a < b < s1.len() implies s1[a].0@
                        != s1[b].0@ by {
                        if b < ii {
                        } else if a < ii {
                            assert(s1[b] == s0[b + 1]);
                        } else {
                            assert(s1[a] == s0[a + 1]);
                            assert(s1[b] == s0[b + 1]);
                        }
                    }
                }
                Some(pid)
            },
            None => {
                proof {
                    lemma_pids_map_domain(s0, block_id@);
                    assert(!pids_map(s0).contains_key(block_id@));
                    assert(pids_map(s0) =~= pids_map(s0).remove(block_id@));
                }
                None
            },
        }
    }
}

impl Default for ProcessManager {
    /// An empty manager.
    fn default() -> (r: Self)
        ensures
            r.wf(),
            r@ == Map::<Seq<char>, u32>::empty(),
    {
        ProcessManager::new()
    }
}

} // verus!
