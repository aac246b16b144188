use vstd::prelude::*;

verus! {

pub const LF: u8 = 0x0a;
pub const CR: u8 = 0x0d;
pub const DL: u8 = 0x7f;
pub const BS: u8 = 0x08;

/// What the shell does with one typed byte.
#[derive(Copy, Clone, Debug, PartialEq, Eq, Structural)]
pub enum KeyAction {
    /// End of line: run the line typed so far.
    Submit,
    /// A byte was taken off the line: rub it out on the screen.
    Erase,
    /// Backspace on an empty line: nothing happens.
    Ignore,
    /// The byte was added to the line as a character: show that character.
    Echo(u8),
}

/// Edits the line being typed with byte `c`, the line holding one character
/// per typed byte (`c as char`): line feed and carriage return submit it
/// unchanged, backspace and delete take off its last character, any other
/// byte is appended as a character.
pub fn handle_key(line: &mut Vec<char>, c: u8) -> (r: KeyAction)
    ensures
        c == LF || c == CR ==> r == KeyAction::Submit && final(line)@ == old(line)@,
        c != LF && c != CR && (c == BS || c == DL) ==> if old(line)@.len() > 0 {
            r == KeyAction::Erase && final(line)@ == old(line)@.drop_last()
        } else {
            r == KeyAction::Ignore && final(line)@ == old(line)@
        },
        c != LF && c != CR && c != BS && c != DL ==> r == KeyAction::Echo(c)
            && final(line)@ == old(line)@.push(c as char),
{
    if c == LF || c == CR {
        KeyAction::Submit
    } else if c == BS || c == DL {
        if line.len() > 0 {
            line.pop();
            KeyAction::Erase
        } else {
            KeyAction::Ignore
        }
    } else {
        line.push(c as char);
        KeyAction::Echo(c)
    }
}

/// The pieces of `s` between occurrences of `sep`, empty pieces included,
/// as `str::split` gives them: one more piece than there are separators.
pub open spec fn split_on(s: Seq<u8>, sep: u8) -> Seq<Seq<u8>>
    decreases s.len(),
{
    if s.len() == 0 {
        seq![Seq::<u8>::empty()]
    } else {
        let r = split_on(s.drop_last(), sep);
        if s.last() == sep {
            r.push(Seq::<u8>::empty())
        } else {
            r.update(r.len() - 1, r.last().push(s.last()))
        }
    }
}

pub proof fn lemma_split_nonempty(s: Seq<u8>, sep: u8)
    ensures
        split_on(s, sep).len() >= 1,
    decreases s.len(),
{
    if s.len() > 0 {
        lemma_split_nonempty(s.drop_last(), sep);
    }
}

/// The byte strings held by a vector of byte vectors.
pub open spec fn byte_strings(v: Seq<Vec<u8>>) -> Seq<Seq<u8>> {
    Seq::new(v.len(), |i: int| v[i]@)
}

/// Splits `s` at every `sep`, keeping empty pieces.
pub fn split(s: &[u8], sep: u8) -> (r: Vec<Vec<u8>>)
    ensures
        byte_strings(r@) == split_on(s@, sep),
{
    let mut pieces: Vec<Vec<u8>> = Vec::new();
    let mut cur: Vec<u8> = Vec::new();
    let mut i: usize = 0;
    while i < s.len()
        invariant
            i <= s@.len(),
            byte_strings(pieces@).push(cur@) == split_on(s@.take(i as int), sep),
        decreases s@.len() - i,
    {
        proof {
            assert(s@.take(i + 1).drop_last() =~= s@.take(i as int));
            lemma_split_nonempty(s@.take(i as int), sep);
        }
        let ghost before = byte_strings(pieces@).push(cur@);
        if s[i] == sep {
            pieces.push(cur);
            cur = Vec::new();
            proof {
                assert(byte_strings(pieces@).push(cur@) =~= before.push(Seq::<u8>::empty()));
            }
        } else {
            cur.push(s[i]);
            proof {
                assert(byte_strings(pieces@).push(cur@) =~= before.update(before.len() - 1, before.last().push(s[i as int])));
            }
        }
        i += 1;
    }
    proof {
        assert(s@.take(i as int) =~= s@);
    }
    pieces.push(cur);
    proof {
        assert(byte_strings(pieces@) =~= split_on(s@, sep));
    }
    pieces
}

/// Each argument with the terminating 0 byte the exec call wants.
pub open spec fn nul_terminated(args: Seq<Seq<u8>>) -> Seq<Seq<u8>> {
    Seq::new(args.len(), |i: int| args[i].push(0u8))
}

/// Whether `a` is the redirection token `sym` (with its terminating 0).
pub open spec fn is_token(a: Seq<u8>, sym: u8) -> bool {
    a == seq![sym, 0u8]
}

/// Whether `i` is the first position of token `sym` in `args`.
pub open spec fn first_token(args: Seq<Seq<u8>>, sym: u8, i: int) -> bool {
    &&& 0 <= i < args.len()
    &&& is_token(args[i], sym)
    &&& forall|j: int| 0 <= j < i ==> !is_token(#[trigger] args[j], sym)
}

/// The first redirection `sym name` taken out of `args`: the remaining
/// arguments and `name` (empty when there is no such token); `None` when
/// the token is the last argument, with no name after it.
pub open spec fn redirect(args: Seq<Seq<u8>>, sym: u8) -> Option<(Seq<Seq<u8>>, Seq<u8>)> {
    if exists|i: int| first_token(args, sym, i) {
        let i = choose|i: int| first_token(args, sym, i);
        if i + 1 < args.len() {
            Some((args.take(i) + args.skip(i + 2), args[i + 1]))
        } else {
            None
        }
    } else {
        Some((args, Seq::<u8>::empty()))
    }
}

proof fn lemma_first_token_unique(args: Seq<Seq<u8>>, sym: u8, i: int, j: int)
    requires
        first_token(args, sym, i),
        first_token(args, sym, j),
    ensures
        i == j,
{
    if i < j {
        assert(!is_token(args[i], sym));
    } else if j < i {
        assert(!is_token(args[j], sym));
    }
}

/// One command of a pipeline before the pipe files are chosen: its
/// arguments (space-separated, each 0-terminated) with the first `< name`
/// and then the first `> name` taken out, the input file name and the
/// output file name (empty when not redirected); `None` when `<` or `>` has
/// no name after it.
pub open spec fn raw_stage(cmd: Seq<u8>) -> Option<(Seq<Seq<u8>>, Seq<u8>, Seq<u8>)> {
    let a0 = nul_terminated(split_on(cmd, 0x20u8));
    match redirect(a0, 0x3cu8) {
        None => None,
        Some((a1, input)) => match redirect(a1, 0x3eu8) {
            None => None,
            Some((a2, output)) => Some((a2, input, output)),
        },
    }
}

/// Name of the file through which the command at position `k` of a
/// pipeline passes its output on: `ftmp2` after even positions, `ftmp1`
/// after odd ones.
pub open spec fn temp_name(k: int) -> Seq<u8> {
    if k % 2 == 0 {
        seq![0x66u8, 0x74u8, 0x6du8, 0x70u8, 0x32u8]
    } else {
        seq![0x66u8, 0x74u8, 0x6du8, 0x70u8, 0x31u8]
    }
}

/// A command of a pipeline ready to run: its arguments, each 0-terminated,
/// and the names of the files its input and output go to (empty: the
/// terminal).
pub struct Stage {
    pub args: Vec<Vec<u8>>,
    pub input: Vec<u8>,
    pub output: Vec<u8>,
}

/// The pipe file named `ftmp` followed by `digit`.
fn temp_file(digit: u8) -> (r: Vec<u8>)
    ensures
        r@ == seq![0x66u8, 0x74u8, 0x6du8, 0x70u8, digit],
{
    let mut r: Vec<u8> = Vec::new();
    r.push(0x66u8);
    r.push(0x74u8);
    r.push(0x6du8);
    r.push(0x70u8);
    r.push(digit);
    proof {
        assert(r@ =~= seq![0x66u8, 0x74u8, 0x6du8, 0x70u8, digit]);
    }
    r
}

fn copy_bytes(v: &Vec<u8>) -> (r: Vec<u8>)
    ensures
        r@ == v@,
{
    let mut r: Vec<u8> = Vec::new();
    let mut i: usize = 0;
    while i < v.len()
        invariant
            i <= v@.len(),
            r@ == v@.take(i as int),
        decreases v@.len() - i,
    {
        r.push(v[i]);
        proof {
            assert(v@.take(i + 1) =~= v@.take(i as int).push(v@[i as int]));
        }
        i += 1;
    }
    proof {
        assert(v@.take(i as int) =~= v@);
    }
    r
}

fn terminate_args(args: &Vec<Vec<u8>>) -> (r: Vec<Vec<u8>>)
    ensures
        byte_strings(r@) == nul_terminated(byte_strings(args@)),
{
    let mut r: Vec<Vec<u8>> = Vec::new();
    let mut i: usize = 0;
    while i < args.len()
        invariant
            i <= args@.len(),
            r@.len() == i,
            byte_strings(r@) == nul_terminated(byte_strings(args@)).take(i as int),
        decreases args@.len() - i,
    {
        let mut a = copy_bytes(&args[i]);
        a.push(0u8);
        let ghost av = a@;
        r.push(a);
        proof {
            assert(r@[i as int]@ == av);
            assert(av == byte_strings(args@)[i as int].push(0u8));
            assert(byte_strings(r@) =~= nul_terminated(byte_strings(args@)).take(i + 1));
        }
        i += 1;
    }
    proof {
        assert(nul_terminated(byte_strings(args@)).take(i as int) =~= nul_terminated(byte_strings(args@)));
    }
    r
}

fn token_at(args: &Vec<Vec<u8>>, i: usize, sym: u8) -> (r: bool)
    requires
        i < args@.len(),
    ensures
        r == is_token(args@[i as int]@, sym),
{
    let a = &args[i];
    let r = a.len() == 2 && a[0] == sym && a[1] == 0u8;
    proof {
        if r {
            assert(a@ =~= seq![sym, 0u8]);
        }
    }
    r
}

/// Takes the first redirection `sym name` out of `args` and returns `name`
/// (empty when there is none); `None`, leaving `args` alone, when the token
/// has no name after it.
fn take_redirect(args: &mut Vec<Vec<u8>>, sym: u8) -> (r: Option<Vec<u8>>)
    ensures
        redirect(byte_strings(old(args)@), sym) matches Some((rest, name)) ==> r matches Some(n) && n@ == name
            && byte_strings(final(args)@) == rest,
        redirect(byte_strings(old(args)@), sym) is None ==> r is None,
{
    let ghost a0 = byte_strings(args@);
    let mut i: usize = 0;
    while i < args.len()
        invariant
            args@ == old(args)@,
            a0 == byte_strings(args@),
            i <= args@.len(),
            forall|j: int| 0 <= j < i ==> !is_token(#[trigger] a0[j], sym),
        decreases args@.len() - i,
    {
        if token_at(args, i, sym) {
            proof {
                assert(a0[i as int] == args@[i as int]@);
                assert(first_token(a0, sym, i as int));
                let c = choose|k: int| first_token(a0, sym, k);
                lemma_first_token_unique(a0, sym, i as int, c);
            }
            if i + 1 >= args.len() {
                return None;
            }
            let name = copy_bytes(&args[i + 1]);
            args.remove(i);
            args.remove(i);
            proof {
                assert(byte_strings(args@) =~= a0.take(i as int) + a0.skip(i + 2));
            }
            return Some(name);
        }
        proof {
            assert(a0[i as int] == args@[i as int]@);
        }
        i += 1;
    }
    proof {
        assert forall|k: int| !first_token(a0, sym, k) by {
            if 0 <= k < a0.len() {
                assert(!is_token(a0[k], sym));
            }
        }
    }
    Some(Vec::new())
}

/// Whether the command `cmd` at position `k` of a pipeline of `n` passes its
/// output on through its pipe file: it is not the last one and its output
/// is not redirected.
pub open spec fn passes_on(cmd: Seq<u8>, k: int, n: int) -> bool {
    raw_stage(cmd) matches Some((_, _, output)) && output.len() == 0 && k != n - 1
}

/// The command `cmd` at position `k` of a pipeline of `n`, ready to run,
/// when `fed` tells whether the command before it passes its output on:
/// input from the previous command's pipe file when fed and not redirected,
/// output to its own pipe file when not last and not redirected.
pub open spec fn stage_plan(cmd: Seq<u8>, k: int, n: int, fed: bool) -> Option<(Seq<Seq<u8>>, Seq<u8>, Seq<u8>)> {
    match raw_stage(cmd) {
        None => None,
        Some((args, input, output)) => Some(
            (
                args,
                if input.len() == 0 && fed { temp_name(k - 1) } else { input },
                if output.len() == 0 && k != n - 1 { temp_name(k) } else { output },
            ),
        ),
    }
}

/// What a planned command holds.
pub open spec fn stage_view(st: Stage) -> (Seq<Seq<u8>>, Seq<u8>, Seq<u8>) {
    (byte_strings(st.args@), st.input@, st.output@)
}

pub open spec fn plan_view(p: Option<Stage>) -> Option<(Seq<Seq<u8>>, Seq<u8>, Seq<u8>)> {
    match p {
        Some(st) => Some(stage_view(st)),
        None => None,
    }
}

/// Plans the command `cmd` at position `cidx` of a pipeline of `n`. `ftmp1`
/// and `ftmp2` tell whether the last odd, respectively even, command passed
/// its output on; the one of this command's parity is updated. `None` when a
/// redirection has no file name after it.
pub fn plan_stage(cmd: &[u8], cidx: usize, n: usize, ftmp1: &mut bool, ftmp2: &mut bool) -> (r: Option<Stage>)
    requires
        cidx < n,
    ensures
        plan_view(r) == stage_plan(
            cmd@,
            cidx as int,
            n as int,
            if cidx % 2 == 0 { *old(ftmp1) } else { *old(ftmp2) },
        ),
        r is Some && cidx % 2 == 0 ==> *final(ftmp1) == *old(ftmp1)
            && *final(ftmp2) == passes_on(cmd@, cidx as int, n as int),
        r is Some && cidx % 2 == 1 ==> *final(ftmp2) == *old(ftmp2)
            && *final(ftmp1) == passes_on(cmd@, cidx as int, n as int),
{
    let words = split(cmd, 0x20u8);
    let mut args = terminate_args(&words);
    let input = match take_redirect(&mut args, 0x3cu8) {
        Some(name) => name,
        None => return None,
    };
    let output = match take_redirect(&mut args, 0x3eu8) {
        Some(name) => name,
        None => return None,
    };
    let mut input = input;
    let mut output = output;
    if cidx % 2 == 0 {
        if input.len() == 0 && *ftmp1 == true {
            input = temp_file(0x31u8);
        }
        if output.len() == 0 && cidx != n - 1 {
            output = temp_file(0x32u8);
            *ftmp2 = true;
        } else {
            *ftmp2 = false;
        }
    } else {
        if input.len() == 0 && *ftmp2 == true {
            input = temp_file(0x32u8);
        }
        if output.len() == 0 && cidx != n - 1 {
            output = temp_file(0x31u8);
            *ftmp1 = true;
        } else {
            *ftmp1 = false;
        }
    }
    proof {
        assert(input@ =~= stage_plan(cmd@, cidx as int, n as int, if cidx % 2 == 0 { *old(ftmp1) } else { *old(ftmp2) }).unwrap().1);
        assert(output@ =~= stage_plan(cmd@, cidx as int, n as int, if cidx % 2 == 0 { *old(ftmp1) } else { *old(ftmp2) }).unwrap().2);
    }
    Some(Stage { args, input, output })
}

/// Whether the command at position `k` of pipeline `cmds` reads what the
/// command before it passes on.
pub open spec fn fed(cmds: Seq<Seq<u8>>, k: int) -> bool {
    k > 0 && passes_on(cmds[k - 1], k - 1, cmds.len() as int)
}

/// Plans each `|`-separated command of `line` (the typed line as text, in
/// UTF-8) in order, stopping after the
/// first one whose redirection has no file name (that entry is `None`).
/// Command `k` reads the pipe file of command `k - 1` exactly when its input
/// is not redirected and command `k - 1` passes its output on, and writes
/// its own pipe file exactly when it is not last and its output is not
/// redirected.
pub fn plan_pipeline(line: &[u8]) -> (r: Vec<Option<Stage>>)
    ensures
        ({
            let cmds = split_on(line@, 0x7cu8);
            &&& 1 <= r@.len() <= cmds.len()
            &&& forall|k: int| 0 <= k < r@.len() ==> plan_view(#[trigger] r@[k]) == stage_plan(
                cmds[k],
                k,
                cmds.len() as int,
                fed(cmds, k),
            )
            &&& forall|k: int| 0 <= k < r@.len() - 1 ==> #[trigger] r@[k] is Some
            &&& r@.len() < cmds.len() ==> r@.last() is None
        }),
{
    let pipes = split(line, 0x7cu8);
    let ghost cmds = split_on(line@, 0x7cu8);
    proof {
        lemma_split_nonempty(line@, 0x7cu8);
    }
    let n = pipes.len();
    let mut ftmp1 = false;
    let mut ftmp2 = false;
    let mut plans: Vec<Option<Stage>> = Vec::new();
    let mut k: usize = 0;
    while k < n
        invariant_except_break
            plans@.len() == k,
            forall|j: int| 0 <= j < k ==> #[trigger] plans@[j] is Some,
            k == 0 ==> !ftmp1 && !ftmp2,
            k > 0 && (k - 1) % 2 == 0 ==> ftmp2 == passes_on(cmds[k - 1], k - 1, n as int),
            k > 0 && (k - 1) % 2 == 1 ==> ftmp1 == passes_on(cmds[k - 1], k - 1, n as int),
        invariant
            n == pipes@.len(),
            n == cmds.len(),
            n >= 1,
            byte_strings(pipes@) == cmds,
            k <= n,
            forall|j: int| 0 <= j < plans@.len() ==> plan_view(#[trigger] plans@[j]) == stage_plan(
                cmds[j],
                j,
                n as int,
                fed(cmds, j),
            ),
        ensures
            1 <= plans@.len() <= n,
            forall|j: int| 0 <= j < plans@.len() - 1 ==> #[trigger] plans@[j] is Some,
            plans@.len() < n ==> plans@.last() is None,
        decreases n - k,
    {
        proof {
            assert(pipes@[k as int]@ == cmds[k as int]);
        }
        let p = plan_stage(pipes[k].as_slice(), k, n, &mut ftmp1, &mut ftmp2);
        let failed = p.is_none();
        let ghost pv = plan_view(p);
        plans.push(p);
        proof {
            assert(plan_view(plans@[k as int]) == pv);
        }
        if failed {
            break;
        }
        k += 1;
    }
    plans
}

/// What a planned pipeline does with files, over every typed line:
/// - a command's own `< name` is its input and its own `> name` its output,
///   whatever its position and whatever the command before it does;
/// - a command without `<` reads exactly the file the command before it
///   writes when that one's output is not redirected, and the terminal
///   otherwise (the first command always reads the terminal);
/// - the last command without `>` writes the terminal, any other writes a
///   pipe file.
pub proof fn law_pipeline_files()
    ensures
        forall|line: &[u8], r: Vec<Option<Stage>>| #[trigger] call_ensures(plan_pipeline, (line,), r) ==> {
            let cmds = split_on(line@, 0x7cu8);
            forall|k: int| #![trigger r@[k]] 0 <= k < r@.len() && r@[k] is Some ==> {
                let st = r@[k].unwrap();
                &&& raw_stage(cmds[k]) is Some
                &&& byte_strings(st.args@) == raw_stage(cmds[k]).unwrap().0
                &&& raw_stage(cmds[k]).unwrap().1.len() > 0 ==> st.input@ == raw_stage(cmds[k]).unwrap().1
                &&& raw_stage(cmds[k]).unwrap().2.len() > 0 ==> st.output@ == raw_stage(cmds[k]).unwrap().2
                &&& raw_stage(cmds[k]).unwrap().1.len() == 0 && k > 0 && raw_stage(cmds[k - 1]).unwrap().2.len() == 0
                    ==> r@[k - 1] is Some && st.input@ == r@[k - 1].unwrap().output@ && st.input@.len() > 0
                &&& raw_stage(cmds[k]).unwrap().1.len() == 0 && (k == 0 || raw_stage(cmds[k - 1]).unwrap().2.len() > 0)
                    ==> st.input@.len() == 0
                &&& raw_stage(cmds[k]).unwrap().2.len() == 0 && k == cmds.len() - 1 ==> st.output@.len() == 0
                &&& raw_stage(cmds[k]).unwrap().2.len() == 0 && k < cmds.len() - 1 ==> st.output@.len() > 0
            }
        },
{
    assert forall|line: &[u8], r: Vec<Option<Stage>>| #[trigger] call_ensures(plan_pipeline, (line,), r) implies {
        let cmds = split_on(line@, 0x7cu8);
        forall|k: int| #![trigger r@[k]] 0 <= k < r@.len() && r@[k] is Some ==> {
            let st = r@[k].unwrap();
            &&& raw_stage(cmds[k]) is Some
            &&& byte_strings(st.args@) == raw_stage(cmds[k]).unwrap().0
            &&& raw_stage(cmds[k]).unwrap().1.len() > 0 ==> st.input@ == raw_stage(cmds[k]).unwrap().1
            &&& raw_stage(cmds[k]).unwrap().2.len() > 0 ==> st.output@ == raw_stage(cmds[k]).unwrap().2
            &&& raw_stage(cmds[k]).unwrap().1.len() == 0 && k > 0 && raw_stage(cmds[k - 1]).unwrap().2.len() == 0
                ==> r@[k - 1] is Some && st.input@ == r@[k - 1].unwrap().output@ && st.input@.len() > 0
            &&& raw_stage(cmds[k]).unwrap().1.len() == 0 && (k == 0 || raw_stage(cmds[k - 1]).unwrap().2.len() > 0)
                ==> st.input@.len() == 0
            &&& raw_stage(cmds[k]).unwrap().2.len() == 0 && k == cmds.len() - 1 ==> st.output@.len() == 0
            &&& raw_stage(cmds[k]).unwrap().2.len() == 0 && k < cmds.len() - 1 ==> st.output@.len() > 0
        }
    } by {
        let cmds = split_on(line@, 0x7cu8);
        assert forall|k: int| #![trigger r@[k]] 0 <= k < r@.len() && r@[k] is Some implies {
            let st = r@[k].unwrap();
            &&& raw_stage(cmds[k]) is Some
            &&& byte_strings(st.args@) == raw_stage(cmds[k]).unwrap().0
            &&& raw_stage(cmds[k]).unwrap().1.len() > 0 ==> st.input@ == raw_stage(cmds[k]).unwrap().1
            &&& raw_stage(cmds[k]).unwrap().2.len() > 0 ==> st.output@ == raw_stage(cmds[k]).unwrap().2
            &&& raw_stage(cmds[k]).unwrap().1.len() == 0 && k > 0 && raw_stage(cmds[k - 1]).unwrap().2.len() == 0
                ==> r@[k - 1] is Some && st.input@ == r@[k - 1].unwrap().output@ && st.input@.len() > 0
            &&& raw_stage(cmds[k]).unwrap().1.len() == 0 && (k == 0 || raw_stage(cmds[k - 1]).unwrap().2.len() > 0)
                ==> st.input@.len() == 0
            &&& raw_stage(cmds[k]).unwrap().2.len() == 0 && k == cmds.len() - 1 ==> st.output@.len() == 0
            &&& raw_stage(cmds[k]).unwrap().2.len() == 0 && k < cmds.len() - 1 ==> st.output@.len() > 0
        } by {
            assert(plan_view(r@[k]) == stage_plan(cmds[k], k, cmds.len() as int, fed(cmds, k)));
            if k > 0 {
                assert(r@[k - 1] is Some);
                assert(plan_view(r@[k - 1]) == stage_plan(cmds[k - 1], k - 1, cmds.len() as int, fed(cmds, k - 1)));
            }
        }
    }
}

} // verus!
