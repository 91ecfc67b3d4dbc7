//! Readiness tracking for the admin surface, and the command list the
//! admin endpoint prints.

use vstd::prelude::*;

verus! {

/// One admin endpoint: its URI and the explanation printed beside it.
pub struct CliCommand {
    /// The request path of the command.
    pub uri: String,
    /// What the command does, in one line.
    pub exp: String,
}

/// The commands the admin endpoint lists.
pub struct CliCmds(pub Vec<CliCommand>);

/// One entry of the command list has the given URI and explanation.
pub open spec fn cmd_is(c: CliCommand, uri: Seq<char>, exp: Seq<char>) -> bool {
    c.uri@ == uri && c.exp@ == exp
}

/// The full command list of the admin endpoint, in its printed order.
pub open spec fn is_standard_cmds(s: Seq<CliCommand>) -> bool {
    &&& s.len() == 8
    &&& cmd_is(s[0], "/healthz/ready"@, "print server state"@)
    &&& cmd_is(s[1], "/debug/pprof/profile"@, "print the pprof data"@)
    &&& cmd_is(s[2], "/debug/gprof/profile"@, "print the gprof data"@)
    &&& cmd_is(s[3], "/debug/gprof/heap"@, "print the heap data"@)
    &&& cmd_is(s[4], "/quitquitquit"@, "exit the server"@)
    &&& cmd_is(s[5], "/config_dump"@, "print the workload information"@)
    &&& cmd_is(s[6], "/"@, "list all the commands"@)
    &&& cmd_is(s[7], "/metrics"@, "list all the metrics"@)
}

impl CliCmds {
    /// The command list, complete and in order.
    pub fn new() -> (r: CliCmds)
        ensures
            is_standard_cmds(r.0@),
    {
        let mut cmds: Vec<CliCommand> = Vec::new();
        cmds.push(CliCommand {
            uri: "/healthz/ready".to_owned(),
            exp: "print server state".to_owned(),
        });
        cmds.push(CliCommand {
            uri: "/debug/pprof/profile".to_owned(),
            exp: "print the pprof data".to_owned(),
        });
        cmds.push(CliCommand {
            uri: "/debug/gprof/profile".to_owned(),
            exp: "print the gprof data".to_owned(),
        });
        cmds.push(CliCommand {
            uri: "/debug/gprof/heap".to_owned(),
            exp: "print the heap data".to_owned(),
        });
        cmds.push(CliCommand { uri: "/quitquitquit".to_owned(), exp: "exit the server".to_owned() });
        cmds.push(CliCommand {
            uri: "/config_dump".to_owned(),
            exp: "print the workload information".to_owned(),
        });
        cmds.push(CliCommand { uri: "/".to_owned(), exp: "list all the commands".to_owned() });
        cmds.push(CliCommand { uri: "/metrics".to_owned(), exp: "list all the metrics".to_owned() });
        CliCmds(cmds)
    }
}

impl Default for CliCmds {
    /// The same command list `new` builds.
    fn default() -> (r: Self)
        ensures
            is_standard_cmds(r.0@),
    {
        Self::new()
    }
}

/// One admin endpoint, by role: what the admin server does with a
/// request once its path is recognized.
#[derive(Clone, Copy, Debug, PartialEq, Eq, Structural)]
pub enum AdminRoute {
    /// Report whether the process is ready.
    Ready,
    /// Capture and print a sampling profile.
    Pprof,
    /// Capture and print a gprof profile.
    Gprof,
    /// Capture and print a heap profile.
    GprofHeap,
    /// Shut the server down.
    Quit,
    /// Print the workload information.
    ConfigDump,
    /// List all the commands.
    CommandList,
    /// List all the metrics.
    Metrics,
}

/// The endpoint a request path names, or nothing for an unknown path.
pub open spec fn spec_route(p: Seq<char>) -> Option<AdminRoute> {
    if p == "/healthz/ready"@ {
        Some(AdminRoute::Ready)
    } else if p == "/debug/pprof/profile"@ {
        Some(AdminRoute::Pprof)
    } else if p == "/debug/gprof/profile"@ {
        Some(AdminRoute::Gprof)
    } else if p == "/debug/gprof/heap"@ {
        Some(AdminRoute::GprofHeap)
    } else if p == "/quitquitquit"@ {
        Some(AdminRoute::Quit)
    } else if p == "/config_dump"@ {
        Some(AdminRoute::ConfigDump)
    } else if p == "/"@ {
        Some(AdminRoute::CommandList)
    } else if p == "/metrics"@ {
        Some(AdminRoute::Metrics)
    } else {
        None
    }
}

/// Dispatches one admin request by its path: the recognized endpoint,
/// or nothing — which the server answers as an invalid command.
pub fn route(path: String) -> (r: Option<AdminRoute>)
    ensures
        r == spec_route(path@),
{
    if path == "/healthz/ready".to_owned() {
        Some(AdminRoute::Ready)
    } else if path == "/debug/pprof/profile".to_owned() {
        Some(AdminRoute::Pprof)
    } else if path == "/debug/gprof/profile".to_owned() {
        Some(AdminRoute::Gprof)
    } else if path == "/debug/gprof/heap".to_owned() {
        Some(AdminRoute::GprofHeap)
    } else if path == "/quitquitquit".to_owned() {
        Some(AdminRoute::Quit)
    } else if path == "/config_dump".to_owned() {
        Some(AdminRoute::ConfigDump)
    } else if path == "/".to_owned() {
        Some(AdminRoute::CommandList)
    } else if path == "/metrics".to_owned() {
        Some(AdminRoute::Metrics)
    } else {
        None
    }
}

/// Tracks whether the process is ready: the set of task names
/// registered and not yet completed. Ready means no task is pending.
pub struct Ready(pub Vec<String>);

/// Blocks readiness for one named task until handed back to
/// `Ready::complete_task` — exactly once, which the move discipline
/// enforces.
pub struct BlockReady {
    /// The task name this blocker holds pending.
    pub name: String,
}

/// The views of a list of names, in order.
pub open spec fn views_of(s: Seq<String>) -> Seq<Seq<char>> {
    s.map(|i: int, x: String| x@)
}

impl Ready {
    /// The pending task names, in registration order.
    pub open spec fn names(self) -> Seq<Seq<char>> {
        views_of(self.0@)
    }

    /// The pending task names, as a set.
    pub open spec fn name_set(self) -> Set<Seq<char>> {
        self.names().to_set()
    }

    /// No task name is registered twice.
    pub open spec fn wf(self) -> bool {
        forall|i: int, j: int| 0 <= i < j < self.names().len() ==> self.names()[i] != self.names()[j]
    }

    /// A tracker with no pending task: ready.
    pub fn new() -> (r: Ready)
        ensures
            r.wf(),
            r.names() == Seq::<Seq<char>>::empty(),
    {
        Ready(Vec::new())
    }

    /// Registers a dependency that blocks readiness until the returned
    /// blocker is completed. Registering a name already pending leaves
    /// the tracker as it is.
    pub fn register_task(&mut self, name: &str) -> (b: BlockReady)
        requires
            old(self).wf(),
        ensures
            final(self).wf(),
            b.name@ == name@,
            final(self).name_set() == old(self).name_set().insert(name@),
            old(self).names().contains(name@) ==> *final(self) == *old(self),
            !old(self).names().contains(name@) ==> final(self).names() == old(self).names().push(
                name@,
            ),
            final(self).names().contains(name@),
    {
        let owned: String = name.to_owned();
        let n = self.0.len();
        let mut i: usize = 0;
        while i < n
            invariant
                i <= n,
                n == self.0@.len(),
                owned@ == name@,
                *self == *old(self),
                self.wf(),
                forall|j: int| 0 <= j < i ==> self.names()[j] != name@,
            decreases n - i,
        {
            if self.0[i] == owned {
                proof {
                    assert(self.names()[i as int] == name@);
                    assert(self.names().contains(name@));
                    assert(self.name_set() =~= self.name_set().insert(name@));
                }
                return BlockReady { name: owned };
            }
            proof {
                assert(self.names()[i as int] == self.0@[i as int]@);
            }
            i = i + 1;
        }
        proof {
            assert forall|j: int| 0 <= j < self.names().len()
                implies self.names()[j] != name@ by {}
            assert(!self.names().contains(name@));
        }
        let ghost before = *self;
        let stored: String = name.to_owned();
        self.0.push(stored);
        let b = BlockReady { name: owned };
        proof {
            assert(self.names() =~= before.names().push(name@));
            let m = before.names().len() as int;
            assert(self.names()[m] == name@);
            assert(self.names().contains(name@));
            assert forall|p: int, q: int|
                0 <= p < q < self.names().len() implies self.names()[p] != self.names()[q] by {
                if q < m {
                    assert(before.names()[p] != before.names()[q]);
                } else {
                    assert(self.names()[q] == name@);
                    assert(self.names()[p] == before.names()[p]);
                }
            }
            assert forall|y: Seq<char>|
                self.name_set().contains(y) implies before.name_set().insert(name@).contains(
                y,
            ) by {
                let j = choose|j: int| 0 <= j < self.names().len() && self.names()[j] == y;
                if j < m {
                    assert(before.names()[j] == y);
                    assert(before.names().contains(y));
                }
            }
            assert forall|y: Seq<char>|
                before.name_set().insert(name@).contains(y) implies self.name_set().contains(
                y,
            ) by {
                if y == name@ {
                } else {
                    let j = choose|j: int| 0 <= j < before.names().len() && before.names()[j] == y;
                    assert(self.names()[j] == y);
                    assert(self.names().contains(y));
                }
            }
            assert(self.name_set() =~= before.name_set().insert(name@));
        }
        b
    }

    /// Whether every registered task has completed.
    pub fn is_ready(&self) -> (r: bool)
        ensures
            r == (self.names().len() == 0),
            r == self.name_set().is_empty(),
    {
        proof {
            if self.names().len() > 0 {
                assert(self.names().contains(self.names()[0]));
                assert(self.name_set().contains(self.names()[0]));
            } else {
                assert(self.name_set() =~= Set::<Seq<char>>::empty());
            }
        }
        self.0.len() == 0
    }

    /// Completes the task a blocker holds pending: removes its name
    /// from the pending set. The blocker is consumed, so no task can
    /// complete twice.
    pub fn complete_task(&mut self, task: BlockReady)
        requires
            old(self).wf(),
            old(self).names().contains(task.name@),
        ensures
            final(self).wf(),
            final(self).name_set() == old(self).name_set().remove(task.name@),
            final(self).names().len() == old(self).names().len() - 1,
    {
        let n = self.0.len();
        let mut i: usize = 0;
        while i < n
            invariant
                i <= n,
                n == self.0@.len(),
                *self == *old(self),
                self.wf(),
                self.names().contains(task.name@),
                forall|j: int| 0 <= j < i ==> self.names()[j] != task.name@,
            decreases n - i,
        {
            if self.0[i] == task.name {
                proof {
                    assert(self.names()[i as int] == self.0@[i as int]@);
                }
                let ghost before = *self;
                self.0.remove(i);
                proof {
                    lemma_views_remove_commute(before.0@, i as int);
                    lemma_unique_views_remove(before.names(), i as int);
                    assert(before.names()[i as int] == task.name@);
                }
                return ;
            }
            proof {
                assert(self.names()[i as int] == self.0@[i as int]@);
            }
            i = i + 1;
        }
        proof {
            // The loop scanned every name without finding the one the
            // precondition promises is present.
            let k = choose|k: int| 0 <= k < self.names().len() && self.names()[k] == task.name@;
            assert(self.names()[k] != task.name@);
        }
    }
}

impl BlockReady {
    /// Registers a further dependency under the same tracker.
    pub fn subtask(&self, parent: &mut Ready, name: &str) -> (b: BlockReady)
        requires
            old(parent).wf(),
        ensures
            final(parent).wf(),
            b.name@ == name@,
            final(parent).name_set() == old(parent).name_set().insert(name@),
            final(parent).names().contains(name@),
    {
        parent.register_task(name)
    }
}

/// Taking a name out of the underlying list takes its view out of the
/// view sequence, at the same place.
proof fn lemma_views_remove_commute(s: Seq<String>, i: int)
    requires
        0 <= i < s.len(),
    ensures
        views_of(s.remove(i)) == views_of(s).remove(i),
{
    s.remove_ensures(i);
    views_of(s).remove_ensures(i);
    assert forall|j: int| 0 <= j < s.len() - 1 implies views_of(s.remove(i))[j] == views_of(
        s,
    ).remove(i)[j] by {
        if j < i {
            assert(s.remove(i)[j] == s[j]);
        } else {
            assert(s.remove(i)[j] == s[j + 1]);
        }
    }
    assert(views_of(s.remove(i)) =~= views_of(s).remove(i));
}

/// Removing the one occurrence of a name from a duplicate-free name
/// sequence removes exactly that name from the name set and keeps the
/// sequence duplicate-free.
proof fn lemma_unique_views_remove(v: Seq<Seq<char>>, i: int)
    requires
        0 <= i < v.len(),
        forall|p: int, q: int| 0 <= p < q < v.len() ==> v[p] != v[q],
    ensures
        v.remove(i).to_set() == v.to_set().remove(v[i]),
        forall|p: int, q: int|
            0 <= p < q < v.remove(i).len() ==> v.remove(i)[p] != v.remove(i)[q],
{
    v.remove_ensures(i);
    assert forall|p: int, q: int|
        0 <= p < q < v.remove(i).len() implies v.remove(i)[p] != v.remove(i)[q] by {
        let p0: int = if p < i {
            p
        } else {
            p + 1
        };
        let q0: int = if q < i {
            q
        } else {
            q + 1
        };
        assert(v.remove(i)[p] == v[p0]);
        assert(v.remove(i)[q] == v[q0]);
    }
    assert forall|y: Seq<char>|
        v.remove(i).to_set().contains(y) implies v.to_set().remove(v[i]).contains(y) by {
        let j = choose|j: int| 0 <= j < v.remove(i).len() && v.remove(i)[j] == y;
        let j0: int = if j < i {
            j
        } else {
            j + 1
        };
        assert(v[j0] == y);
        assert(v.contains(y));
        if j0 < i {
            assert(v[j0] != v[i]);
        } else {
            assert(v[i] != v[j0]);
        }
    }
    assert forall|y: Seq<char>|
        v.to_set().remove(v[i]).contains(y) implies v.remove(i).to_set().contains(y) by {
        let j = choose|j: int| 0 <= j < v.len() && v[j] == y;
        if j < i {
            assert(v.remove(i)[j] == y);
            assert(v.remove(i).contains(y));
        } else {
            assert(v.remove(i)[j - 1] == y);
            assert(v.remove(i).contains(y));
        }
    }
    assert(v.remove(i).to_set() =~= v.to_set().remove(v[i]));
}

} // verus!
