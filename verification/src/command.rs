//! Command lines, as plain values.

use vstd::prelude::*;
use crate::text::owned;

verus! {

/// The program that runs another command with elevated privilege.
pub open spec fn elevation_program() -> Seq<char> {
    "sudo"@
}

/// A command to run: the program name followed by its arguments, each passed
/// to the child as it stands, and whether it runs with elevated privilege.
#[derive(Debug, Clone, PartialEq, Eq)]
pub struct Invocation {
    pub argv: Vec<String>,
    pub elevate: bool,
}

/// The mathematical value of an [`Invocation`].
pub struct InvocationView {
    pub argv: Seq<Seq<char>>,
    pub elevate: bool,
}

impl View for Invocation {
    type V = InvocationView;

    open spec fn view(&self) -> InvocationView {
        InvocationView { argv: self.argv.deep_view(), elevate: self.elevate }
    }
}

impl DeepView for Invocation {
    type V = InvocationView;

    open spec fn deep_view(&self) -> InvocationView {
        self@
    }
}

/// The arguments a child process is started with: `argv` itself, behind the
/// elevation program when `elevate` is set.
pub open spec fn command_line(argv: Seq<Seq<char>>, elevate: bool) -> Seq<Seq<char>> {
    if elevate {
        seq![elevation_program()] + argv
    } else {
        argv
    }
}

/// The program that is started for a command: the first entry of its command
/// line, or the empty text for a command without arguments.
pub open spec fn program(inv: InvocationView) -> Seq<char> {
    let line = command_line(inv.argv, inv.elevate);
    if line.len() > 0 {
        line[0]
    } else {
        Seq::empty()
    }
}

/// A copy of the strings of `items`, in order.
pub fn copy_strings(items: &Vec<String>) -> (copy: Vec<String>)
    ensures
        copy.deep_view() == items.deep_view(),
{
    let mut copy: Vec<String> = Vec::new();
    let mut i: usize = 0;
    while i < items.len()
        invariant
            i <= items.len(),
            copy.len() == i,
            forall|k: int| 0 <= k < i ==> copy[k]@ == items[k]@,
        decreases items.len() - i,
    {
        copy.push(items[i].clone());
        i += 1;
    }
    assert(copy.deep_view() =~= items.deep_view());
    copy
}

/// Builds the full argument list for `program` with `args`, wrapped with the
/// elevation program when `elevate` is set.
pub fn build_invocation(program: &str, args: &Vec<String>, elevate: bool) -> (argv: Vec<String>)
    ensures
        argv.deep_view() == command_line(seq![program@] + args.deep_view(), elevate),
{
    let mut argv: Vec<String> = Vec::new();
    if elevate {
        argv.push(owned("sudo"));
    }
    argv.push(owned(program));
    let ghost head = argv.deep_view();
    assert(head =~= command_line(seq![program@], elevate));
    let mut i: usize = 0;
    while i < args.len()
        invariant
            i <= args.len(),
            head == command_line(seq![program@], elevate),
            argv.len() == head.len() + i,
            forall|k: int| 0 <= k < head.len() ==> argv[k]@ == head[k],
            forall|k: int| 0 <= k < i ==> argv[head.len() + k]@ == args[k]@,
        decreases args.len() - i,
    {
        argv.push(args[i].clone());
        i += 1;
    }
    proof {
        let want = command_line(seq![program@] + args.deep_view(), elevate);
        assert(want =~= head + args.deep_view());
        assert forall|k: int| 0 <= k < argv.len() implies argv.deep_view()[k] == want[k] by {
            if k >= head.len() {
                assert(argv[head.len() + (k - head.len())]@ == args[k - head.len()]@);
            }
        }
        assert(argv.deep_view() =~= want);
    }
    argv
}

impl Invocation {
    /// An unprivileged command.
    pub fn cmd(argv: Vec<String>) -> (inv: Invocation)
        ensures
            inv@ == (InvocationView { argv: argv.deep_view(), elevate: false }),
    {
        Invocation { argv, elevate: false }
    }

    /// A command that runs with elevated privilege.
    pub fn sudo(argv: Vec<String>) -> (inv: Invocation)
        ensures
            inv@ == (InvocationView { argv: argv.deep_view(), elevate: true }),
    {
        Invocation { argv, elevate: true }
    }

    /// The arguments the child process is started with.
    pub fn command_line(&self) -> (line: Vec<String>)
        ensures
            line.deep_view() == command_line(self@.argv, self@.elevate),
    {
        let mut line: Vec<String> = Vec::new();
        if self.elevate {
            line.push(owned("sudo"));
        }
        let ghost head = line.deep_view();
        assert(head =~= command_line(Seq::empty(), self.elevate));
        let mut i: usize = 0;
        while i < self.argv.len()
            invariant
                i <= self.argv.len(),
                head == command_line(Seq::empty(), self.elevate),
                line.len() == head.len() + i,
                forall|k: int| 0 <= k < head.len() ==> line[k]@ == head[k],
                forall|k: int| 0 <= k < i ==> line[head.len() + k]@ == self.argv[k]@,
            decreases self.argv.len() - i,
        {
            line.push(self.argv[i].clone());
            i += 1;
        }
        assert(line.deep_view() =~= command_line(self@.argv, self@.elevate));
        line
    }

    /// The program that is started for this command.
    pub fn program(&self) -> (name: String)
        ensures
            name@ == program(self@),
    {
        if self.elevate {
            owned("sudo")
        } else if self.argv.len() > 0 {
            self.argv[0].clone()
        } else {
            String::new()
        }
    }

    /// A copy of this command.
    pub fn duplicate(&self) -> (copy: Invocation)
        ensures
            copy@ == self@,
    {
        Invocation { argv: copy_strings(&self.argv), elevate: self.elevate }
    }
}

} // verus!
