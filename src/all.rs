//! Commands over every registered host at once.

use vstd::prelude::*;

use crate::fields::{command_from, command_text, same_text, texts};
use crate::host::{views, Host, HostView};

verus! {

/// What an `all` command line asks for.
pub enum AllCommand {
    Help,
    /// Run this command on every host, in registry order.
    Run(String),
}

/// The command that the arguments `program all <sub> ...` ask for: `status`
/// runs `uptime` everywhere, `exec [cmd...]` runs the command (the empty
/// one where no word follows); help for anything else.
pub open spec fn parse_all_args(a: Seq<Seq<char>>) -> Option<Seq<char>> {
    if a.len() < 3 {
        None
    } else if a[2] == "status"@ {
        Some("uptime"@)
    } else if a[2] == "exec"@ {
        Some(command_text(a.subrange(3, a.len() as int)))
    } else {
        None
    }
}

/// Reads an `all` command line.
pub fn base(args: Vec<String>) -> (r: AllCommand)
    ensures
        match parse_all_args(texts(args@)) {
            Some(c) => r matches AllCommand::Run(s) && s@ == c,
            None => r is Help,
        },
{
    if args.len() < 3 {
        return AllCommand::Help;
    }
    assert(texts(args@)[2] == args@[2]@);
    let cmd = args[2].as_str();
    if same_text(cmd, "status") {
        AllCommand::Run(String::from_str("uptime"))
    } else if same_text(cmd, "exec") {
        match exec_cmd(&args) {
            Some(c) => AllCommand::Run(c),
            None => AllCommand::Help,
        }
    } else {
        AllCommand::Help
    }
}

/// The command of `program all exec [cmd...]`: its words, each followed by
/// one space; none where the line is too short to hold a command.
pub fn exec_cmd(args: &Vec<String>) -> (r: Option<String>)
    ensures
        args@.len() >= 3 ==> (r matches Some(c) && c@ == command_text(
            texts(args@).subrange(3, args@.len() as int),
        )),
        args@.len() < 3 ==> r is None,
{
    if args.len() < 3 {
        None
    } else {
        Some(command_from(args, 3))
    }
}

/// The report of a run over hosts: for each host in order, its alias, a
/// colon and a line break, its output, and a line break.
pub open spec fn report_text(hosts: Seq<HostView>, outputs: Seq<Seq<char>>) -> Seq<char>
    decreases hosts.len(),
{
    if hosts.len() == 0 || outputs.len() == 0 {
        Seq::empty()
    } else {
        report_text(hosts.drop_last(), outputs.drop_last()) + hosts.last().alias + ":\n"@
            + outputs.last() + "\n"@
    }
}

/// Assembles the outputs of one command run on each host, `outputs[i]`
/// coming from `hosts[i]`, into one report in registry order. A host that
/// could not be reached has the unreachable text in its place, so the others
/// still appear.
pub fn run_host_cmd(hosts: &Vec<Host>, outputs: &Vec<String>) -> (r: String)
    requires
        outputs@.len() == hosts@.len(),
    ensures
        r@ == report_text(views(hosts@), texts(outputs@)),
{
    let mut r = String::new();
    let mut i: usize = 0;
    let ghost hv = views(hosts@);
    let ghost ov = texts(outputs@);
    assert(hv.subrange(0, 0).len() == 0);
    while i < hosts.len()
        invariant
            outputs@.len() == hosts@.len(),
            hv == views(hosts@),
            ov == texts(outputs@),
            i <= hosts@.len(),
            r@ == report_text(hv.subrange(0, i as int), ov.subrange(0, i as int)),
        decreases hosts@.len() - i,
    {
        let ghost h0 = hv.subrange(0, i as int);
        let ghost o0 = ov.subrange(0, i as int);
        let ghost h1 = hv.subrange(0, i + 1);
        let ghost o1 = ov.subrange(0, i + 1);
        assert(h1.drop_last() =~= h0);
        assert(o1.drop_last() =~= o0);
        assert(h1.last() == hosts@[i as int]@);
        assert(o1.last() == outputs@[i as int]@);
        r.append(hosts[i].alias.as_str());
        r.append(":\n");
        r.append(outputs[i].as_str());
        r.append("\n");
        i = i + 1;
    }
    assert(hv.subrange(0, i as int) =~= hv);
    assert(ov.subrange(0, i as int) =~= ov);
    r
}

/// How many of the flags are set.
pub open spec fn count_true(flags: Seq<bool>) -> nat
    decreases flags.len(),
{
    if flags.len() == 0 {
        0
    } else {
        count_true(flags.drop_last()) + if flags.last() {
            1nat
        } else {
            0nat
        }
    }
}

/// The status over every host, `reachable[i]` telling whether host `i`
/// answered a probe: how many hosts there are, and how many answered.
pub fn status_counts(reachable: &Vec<bool>) -> (r: (usize, usize))
    ensures
        r.0 == reachable@.len(),
        r.1 == count_true(reachable@),
{
    let mut count: usize = 0;
    let mut i: usize = 0;
    assert(reachable@.subrange(0, 0) =~= Seq::<bool>::empty());
    while i < reachable.len()
        invariant
            i <= reachable@.len(),
            count == count_true(reachable@.subrange(0, i as int)),
            count <= i,
        decreases reachable@.len() - i,
    {
        assert(reachable@.subrange(0, i + 1).drop_last() =~= reachable@.subrange(0, i as int));
        if reachable[i] {
            count = count + 1;
        }
        i = i + 1;
    }
    assert(reachable@.subrange(0, i as int) =~= reachable@);
    (reachable.len(), count)
}

} // verus!
