//! Running the daemon in the background, in a tmux session.
use vstd::prelude::*;
use crate::text::{concat2, copy_str, push_str};

verus! {

/// The background daemon process, with its state under `state_dir`.
#[derive(Debug)]
pub struct DaemonProcess {
    state_dir: String,
}

/// The tmux session the daemon runs in.
pub open spec fn session() -> Seq<char> {
    "dreamswarm-daemon"@
}

/// The command run in the session: `dreamswarm daemon run` and the extra
/// arguments, separated by spaces.
pub open spec fn run_command(extra: Seq<Seq<char>>) -> Seq<char>
    decreases extra.len(),
{
    if extra.len() == 0 {
        "dreamswarm daemon run"@
    } else {
        run_command(extra.drop_last()) + " "@ + extra.last()
    }
}

/// The tmux arguments that start the session detached, 200 by 50, running
/// the command.
pub open spec fn start_args(extra: Seq<Seq<char>>) -> Seq<Seq<char>> {
    seq!["new-session"@, "-d"@, "-s"@, session(), "-x"@, "200"@, "-y"@, "50"@, run_command(extra)]
}

impl DaemonProcess {
    pub closed spec fn state_view(&self) -> Seq<char> {
        self.state_dir@
    }

    /// The daemon process with its state under `state_dir`.
    pub fn new(state_dir: String) -> (r: Self)
        ensures
            r.state_view() == state_dir@,
    {
        DaemonProcess { state_dir }
    }

    /// The state directory.
    pub fn state_dir(&self) -> (r: &String)
        ensures
            r@ == self.state_view(),
    {
        &self.state_dir
    }

    /// The file the daemon's state is kept in.
    pub fn state_file(&self) -> (r: String)
        ensures
            r@ == self.state_view() + "/daemon_state.json"@,
    {
        concat2(self.state_dir.as_str(), "/daemon_state.json")
    }

    /// The tmux session name.
    pub fn session_name() -> (r: &'static str)
        ensures
            r@ == session(),
    {
        "dreamswarm-daemon"
    }

    /// The tmux arguments that start the daemon: refused when it already
    /// runs.
    pub fn start_args(running: bool, extra_args: &Vec<String>) -> (r: Result<Vec<String>, String>)
        ensures
            match r {
                Ok(v) => !running && v.deep_view() == start_args(extra_args.deep_view()),
                Err(e) => running && e@ == "Daemon is already running. Use 'dreamswarm daemon stop' first."@,
            },
    {
        if running {
            return Err(copy_str("Daemon is already running. Use 'dreamswarm daemon stop' first."));
        }
        let mut cmd = copy_str("dreamswarm daemon run");
        let mut k: usize = 0;
        while k < extra_args.len()
            invariant
                k <= extra_args.len(),
                cmd@ == run_command(extra_args.deep_view().take(k as int)),
            decreases extra_args.len() - k,
        {
            push_str(&mut cmd, " ");
            push_str(&mut cmd, extra_args[k].as_str());
            proof {
                let ds = extra_args.deep_view();
                assert(ds.take(k + 1).drop_last() =~= ds.take(k as int));
                assert(ds.take(k + 1).last() == extra_args@[k as int]@);
            }
            k = k + 1;
        }
        assert(extra_args.deep_view().take(k as int) =~= extra_args.deep_view());
        let mut v: Vec<String> = Vec::new();
        v.push(copy_str("new-session"));
        v.push(copy_str("-d"));
        v.push(copy_str("-s"));
        v.push(copy_str("dreamswarm-daemon"));
        v.push(copy_str("-x"));
        v.push(copy_str("200"));
        v.push(copy_str("-y"));
        v.push(copy_str("50"));
        v.push(cmd);
        assert(v.deep_view() =~= start_args(extra_args.deep_view()));
        Ok(v)
    }
}

} // verus!
