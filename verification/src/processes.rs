//! Which running processes are Codex app-servers, and how they are ended.

use crate::search::{any_where, index_where, index_where_is};
use crate::text::{
    blank, chars_of, contains, from_utf8_lossy, has_part, is_white, lossy_text, lowered,
    number_upto, parse_upto, part_of, pieces, split, starts_with, str_eq, to_lower, trim,
    trim_start, trimmed, views, white,
};
use vstd::prelude::*;
use vstd::string::*;

verus! {

/// Names in a path: not empty, and not the directory itself.
pub open spec fn named() -> spec_fn(Seq<char>) -> bool {
    |p: Seq<char>| p.len() > 0 && p != "."@
}

/// The last name in a path, nothing where it ends in the directory above.
pub open spec fn file_name(path: Seq<char>) -> Option<Seq<char>> {
    last_name(pieces(path, '/'))
}

/// The last name among the parts of a path.
pub open spec fn last_name(parts: Seq<Seq<char>>) -> Option<Seq<char>>
    decreases parts.len(),
{
    if parts.len() == 0 {
        None
    } else if named()(parts.last()) {
        if parts.last() == ".."@ {
            None
        } else {
            Some(parts.last())
        }
    } else {
        last_name(parts.drop_last())
    }
}

/// The name of a program, in lower case.
pub open spec fn program_name(path: Seq<char>) -> Seq<char> {
    lowered(
        match file_name(path) {
            Some(name) => name,
            None => path,
        },
    )
}

/// Arguments that ask for the app-server; a path that ends in its name does not.
pub open spec fn server_argument() -> spec_fn(Seq<char>) -> bool {
    |a: Seq<char>| a == "app-server"@
}

/// Whether a command line is that of a Codex app-server: its program is a Codex runtime
/// and not this project's own, the app-server is asked for by an argument of its own,
/// and the process is neither this one nor its parent.
pub open spec fn is_app_server(
    args: Seq<Seq<char>>,
    pid: u32,
    own: u32,
    parent: Option<u32>,
) -> bool {
    &&& args.len() > 0
    &&& "codex"@.is_prefix_of(program_name(args[0]))
    &&& !"codex-mp"@.is_prefix_of(program_name(args[0]))
    &&& pid != own
    &&& parent != Some(pid)
    &&& any_where(args.drop_first(), server_argument())
}

fn find_name(parts: &Vec<String>) -> (r: Option<String>)
    ensures
        last_name(views(parts@)) == (match r {
            Some(s) => Some(s@),
            None => None,
        }),
{
    let ghost all = views(parts@);
    let mut i: usize = parts.len();
    assert(all.take(i as int) =~= all);
    while i > 0
        invariant
            i <= parts@.len(),
            all == views(parts@),
            last_name(all) == last_name(all.take(i as int)),
        decreases i,
    {
        let part = &parts[i - 1];
        assert(all.take(i as int).last() == part@);
        assert(all.take(i as int).drop_last() =~= all.take(i - 1));
        if !part.as_str().is_empty() && !str_eq(part, ".") {
            assert(named()(part@));
            return if str_eq(part, "..") {
                None
            } else {
                Some(part.clone())
            };
        }
        assert(!named()(part@));
        i = i - 1;
    }
    None
}

/// The name of a program, in lower case.
pub fn name_of_program(path: &str) -> (r: String)
    ensures
        r@ == program_name(path@),
{
    match find_name(&split(path, '/')) {
        Some(name) => to_lower(&name),
        None => to_lower(path),
    }
}

/// Whether a command line is that of a Codex app-server.
pub fn is_codex_app_server_process(args: &Vec<String>, pid: u32, own: u32, parent: Option<u32>) -> (r:
    bool)
    ensures
        r == is_app_server(views(args@), pid, own, parent),
{
    let ghost all = views(args@);
    assert(all.len() == args@.len());
    if args.len() == 0 {
        return false;
    }
    assert(all[0] == args@[0]@);
    let program = name_of_program(&args[0]);
    if !starts_with(&program, "codex") || starts_with(&program, "codex-mp") {
        return false;
    }
    if pid == own || parent == Some(pid) {
        return false;
    }
    asks_for_server(args)
}

/// Whether one of the arguments after the first asks for the app-server.
fn asks_for_server(args: &Vec<String>) -> (r: bool)
    requires
        args@.len() > 0,
    ensures
        r == any_where(views(args@).drop_first(), server_argument()),
{
    let ghost all = views(args@);
    let ghost rest = all.drop_first();
    let mut i: usize = 1;
    while i < args.len()
        invariant
            1 <= i <= args@.len(),
            all == views(args@),
            rest == all.drop_first(),
            forall|j: int| 0 <= j < i - 1 ==> !server_argument()(#[trigger] rest[j]),
        decreases args@.len() - i,
    {
        assert(rest[i - 1] == args@[i as int]@);
        if str_eq(&args[i], "app-server") {
            proof {
                assert(server_argument()(rest[i - 1]));
                index_where_is(rest, server_argument(), i - 1);
            }
            return true;
        }
        i = i + 1;
    }
    proof {
        index_where_is(rest, server_argument(), rest.len() as int);
    }
    false
}

/// This project's own programs are never taken for an app-server, whatever their
/// arguments say; nor are this process and its parent.
pub proof fn own_programs_are_never_selected(
    args: Seq<Seq<char>>,
    pid: u32,
    own: u32,
    parent: Option<u32>,
)
    requires
        args.len() == 0 || "codex-mp"@.is_prefix_of(program_name(args[0])) || pid == own || parent
            == Some(pid),
    ensures
        !is_app_server(args, pid, own, parent),
{
}

/// A running process and its command line.
pub struct Candidate {
    pub pid: u32,
    pub args: Vec<String>,
}

/// Whether numbers are listed in increasing order, each once.
pub open spec fn increasing(s: Seq<u32>) -> bool {
    forall|i: int, j: int| 0 <= i < j < s.len() ==> #[trigger] s[i] < #[trigger] s[j]
}

/// Puts a number into its place, unless it is there.
fn insert_pid(list: &mut Vec<u32>, pid: u32)
    requires
        increasing(old(list)@),
    ensures
        increasing(final(list)@),
        forall|p: u32| #[trigger] final(list)@.contains(p) <==> old(list)@.contains(p) || p == pid,
{
    let ghost start = list@;
    let mut i: usize = 0;
    while i < list.len() && list[i] < pid
        invariant
            i <= list@.len(),
            list@ == start,
            forall|j: int| 0 <= j < i ==> #[trigger] start[j] < pid,
        decreases list@.len() - i,
    {
        i = i + 1;
    }
    if i < list.len() && list[i] == pid {
        return;
    }
    list.insert(i, pid);
    let ghost after = list@;
    assert(after =~= start.insert(i as int, pid));
    assert forall|a: int, b: int| 0 <= a < b < after.len() implies #[trigger] after[a]
        < #[trigger] after[b] by {
        let x = if a < i {
            a
        } else {
            a - 1
        };
        let y = if b < i {
            b
        } else {
            b - 1
        };
        if a != i {
            assert(after[a] == start[x]);
        }
        if b != i {
            assert(after[b] == start[y]);
        }
        if a == i {
            assert(start[i as int] > pid);
            assert(start[y] >= start[i as int]);
        }
    }
    assert forall|p: u32| #[trigger] after.contains(p) <==> start.contains(p) || p == pid by {
        if start.contains(p) {
            let j = choose|j: int| 0 <= j < start.len() && start[j] == p;
            if j < i {
                assert(after[j] == p);
            } else {
                assert(after[j + 1] == p);
            }
        }
        if p == pid {
            assert(after[i as int] == p);
        }
        if after.contains(p) && p != pid {
            let j = choose|j: int| 0 <= j < after.len() && after[j] == p;
            if j < i {
                assert(start[j] == p);
            } else {
                assert(start[j - 1] == p);
            }
        }
    }
}

/// Whether a process is among the candidates as a Codex app-server.
pub open spec fn selected(
    candidates: Seq<Candidate>,
    own: u32,
    parent: Option<u32>,
    pid: u32,
) -> bool {
    exists|i: int|
        {
            &&& 0 <= i < candidates.len()
            &&& (#[trigger] candidates[i]).pid == pid
            &&& is_app_server(views(candidates[i].args@), pid, own, parent)
        }
}

/// The Codex app-servers among running processes, in increasing order.
pub fn find_codex_running_pids(candidates: &Vec<Candidate>, own: u32, parent: Option<u32>) -> (r: Vec<
    u32,
>)
    ensures
        increasing(r@),
        forall|p: u32| #[trigger] r@.contains(p) <==> selected(candidates@, own, parent, p),
{
    let mut out: Vec<u32> = Vec::new();
    let mut i: usize = 0;
    while i < candidates.len()
        invariant
            i <= candidates@.len(),
            increasing(out@),
            forall|p: u32|
                #[trigger] out@.contains(p) <==> selected(
                    candidates@.take(i as int),
                    own,
                    parent,
                    p,
                ),
        decreases candidates@.len() - i,
    {
        let c = &candidates[i];
        let ghost before = out@;
        let hit = is_codex_app_server_process(&c.args, c.pid, own, parent);
        if hit {
            insert_pid(&mut out, c.pid);
        }
        proof {
            let less = candidates@.take(i as int);
            let more = candidates@.take(i + 1);
            assert forall|p: u32|
                #[trigger] out@.contains(p) <==> selected(more, own, parent, p) by {
                assert(before.contains(p) <==> selected(less, own, parent, p));
                if selected(less, own, parent, p) {
                    let j = choose|j: int|
                        {
                            &&& 0 <= j < less.len()
                            &&& (#[trigger] less[j]).pid == p
                            &&& is_app_server(views(less[j].args@), p, own, parent)
                        };
                    assert(more[j] == less[j]);
                }
                if hit && p == c.pid {
                    assert(more[i as int] == *c);
                }
                if selected(more, own, parent, p) {
                    let j = choose|j: int|
                        {
                            &&& 0 <= j < more.len()
                            &&& (#[trigger] more[j]).pid == p
                            &&& is_app_server(views(more[j].args@), p, own, parent)
                        };
                    if j < i {
                        assert(less[j] == more[j]);
                    } else {
                        assert(more[j] == *c);
                    }
                }
            }
        }
        i = i + 1;
    }
    assert(candidates@.take(i as int) =~= candidates@);
    out
}

/// The parts of bytes between zeros that are not empty.
pub open spec fn nul_parts(bytes: Seq<u8>, part: Seq<u8>) -> Seq<Seq<u8>>
    decreases bytes.len(),
{
    if bytes.len() == 0 {
        if part.len() > 0 {
            seq![part]
        } else {
            Seq::empty()
        }
    } else if bytes[0] == 0 {
        if part.len() > 0 {
            seq![part] + nul_parts(bytes.drop_first(), Seq::empty())
        } else {
            nul_parts(bytes.drop_first(), Seq::empty())
        }
    } else {
        nul_parts(bytes.drop_first(), part.push(bytes[0]))
    }
}

/// The arguments of a command line whose arguments end in zeros.
pub open spec fn nul_arguments(bytes: Seq<u8>) -> Seq<Seq<char>> {
    nul_parts(bytes, Seq::empty()).map_values(|p: Seq<u8>| lossy_text(p))
}

/// The arguments of a command line whose arguments end in zeros.
pub fn command_arguments(bytes: &Vec<u8>) -> (r: Vec<String>)
    ensures
        views(r@) == nul_arguments(bytes@),
{
    let ghost whole = nul_arguments(bytes@);
    let ghost text = |p: Seq<u8>| lossy_text(p);
    let mut out: Vec<String> = Vec::new();
    let mut part: Vec<u8> = Vec::new();
    let mut i: usize = 0;
    assert(bytes@.skip(0) =~= bytes@);
    assert(part@ =~= Seq::empty());
    assert(views(out@) + nul_parts(bytes@.skip(0), part@).map_values(text) =~= whole);
    while i < bytes.len()
        invariant
            i <= bytes@.len(),
            whole == nul_arguments(bytes@),
            text == (|p: Seq<u8>| lossy_text(p)),
            views(out@) + nul_parts(bytes@.skip(i as int), part@).map_values(text) == whole,
        decreases bytes@.len() - i,
    {
        let b = bytes[i];
        let ghost rest = bytes@.skip(i as int);
        let ghost next = bytes@.skip(i + 1);
        assert(rest.drop_first() =~= next);
        assert(rest[0] == b);
        let ghost before = views(out@);
        if b == 0 {
            if part.len() > 0 {
                let s = from_utf8_lossy(&part);
                out.push(s);
                assert(views(out@) =~= before.push(s@));
                proof {
                    let tail = nul_parts(next, Seq::empty());
                    assert((seq![part@] + tail).map_values(text) =~= seq![s@] + tail.map_values(
                        text,
                    ));
                    assert(before + (seq![s@] + tail.map_values(text)) =~= before.push(s@)
                        + tail.map_values(text));
                }
            }
            part = Vec::new();
            assert(part@ =~= Seq::empty());
        } else {
            part.push(b);
        }
        i = i + 1;
    }
    assert(bytes@.skip(i as int) =~= Seq::empty());
    if part.len() > 0 {
        let ghost before = views(out@);
        let s = from_utf8_lossy(&part);
        out.push(s);
        assert(views(out@) =~= before.push(s@));
        assert(seq![part@].map_values(text) =~= seq![s@]);
        assert(before + seq![s@] =~= before.push(s@));
    } else {
        assert(Seq::<Seq<u8>>::empty().map_values(text) =~= Seq::empty());
        assert(views(out@) + Seq::<Seq<char>>::empty() =~= views(out@));
    }
    out
}

/// The process that a directory of running processes is of.
pub fn process_of_directory(name: &str) -> (r: Option<u32>)
    ensures
        number_upto(name@, u32::MAX as nat) == (match r {
            Some(pid) => Some(pid as nat),
            None => None,
        }),
{
    match parse_upto(name, u32::MAX as u64) {
        Some(n) => Some(n as u32),
        None => None,
    }
}

/// White space.
pub open spec fn is_space() -> spec_fn(char) -> bool {
    |c: char| white(c)
}

/// The words of a text.
pub open spec fn words(s: Seq<char>) -> Seq<Seq<char>>
    decreases s.len(),
{
    if s.len() == 0 {
        Seq::empty()
    } else if white(s[0]) {
        words(s.drop_first())
    } else {
        let n = index_where(s, is_space());
        if 0 < n <= s.len() {
            seq![s.take(n)] + words(s.skip(n))
        } else {
            Seq::empty()
        }
    }
}

/// The words of a text.
pub fn split_words(s: &str) -> (r: Vec<String>)
    ensures
        views(r@) == words(s@),
{
    let chars = chars_of(s);
    let mut out: Vec<String> = Vec::new();
    let mut i: usize = 0;
    assert(s@.skip(0) =~= s@);
    assert(views(out@) + words(s@.skip(0)) =~= words(s@));
    while i < chars.len()
        invariant
            i <= chars@.len(),
            chars@ == s@,
            views(out@) + words(s@.skip(i as int)) == words(s@),
        decreases chars@.len() - i,
    {
        let ghost rest = s@.skip(i as int);
        assert(rest[0] == chars@[i as int]);
        if is_white(chars[i]) {
            assert(rest.drop_first() =~= s@.skip(i + 1));
            i = i + 1;
        } else {
            let mut j: usize = i + 1;
            while j < chars.len() && !is_white(chars[j])
                invariant
                    i < j <= chars@.len(),
                    chars@ == s@,
                    forall|k: int| i <= k < j ==> !white(#[trigger] s@[k]),
                decreases chars@.len() - j,
            {
                j = j + 1;
            }
            proof {
                assert forall|k: int| 0 <= k < j - i implies !is_space()(#[trigger] rest[k]) by {
                    assert(!white(s@[i + k]));
                }
                index_where_is(rest, is_space(), j - i);
                assert(rest.skip(j - i) =~= s@.skip(j as int));
                assert(rest.take(j - i) =~= s@.subrange(i as int, j as int));
            }
            let word = part_of(&chars, i, j);
            let ghost before = views(out@);
            out.push(word);
            assert(views(out@) =~= before.push(word@));
            assert(before + (seq![word@] + words(s@.skip(j as int))) =~= before.push(word@)
                + words(s@.skip(j as int)));
            i = j;
        }
    }
    assert(s@.skip(i as int) =~= Seq::empty());
    assert(views(out@) + words(s@.skip(i as int)) =~= views(out@));
    out
}

/// The process and the command line that a line of a process list gives: a number, white
/// space, and the command line.
pub open spec fn listed_process(line: Seq<char>) -> Option<(nat, Seq<Seq<char>>)> {
    let t = trim_start(line);
    let n = index_where(t, is_space());
    if n >= t.len() {
        None
    } else {
        match number_upto(t.take(n), u32::MAX as nat) {
            Some(pid) => Some((pid, words(t.skip(n + 1)))),
            None => None,
        }
    }
}

/// The process that a line of a process list gives.
pub fn read_process_line(line: &str) -> (r: Option<Candidate>)
    ensures
        listed_process(line@) == (match r {
            Some(c) => Some((c.pid as nat, views(c.args@))),
            None => None,
        }),
{
    let chars = chars_of(line);
    let mut from: usize = 0;
    assert(line@.skip(0) =~= line@);
    while from < chars.len() && is_white(chars[from])
        invariant
            from <= chars@.len(),
            chars@ == line@,
            trim_start(line@) == trim_start(line@.skip(from as int)),
        decreases chars@.len() - from,
    {
        assert(line@.skip(from as int).drop_first() =~= line@.skip(from + 1));
        from = from + 1;
    }
    let ghost t = line@.skip(from as int);
    assert(trim_start(line@) == t);
    let mut to: usize = from;
    while to < chars.len() && !is_white(chars[to])
        invariant
            from <= to <= chars@.len(),
            chars@ == line@,
            t == line@.skip(from as int),
            forall|k: int| 0 <= k < to - from ==> !is_space()(#[trigger] t[k]),
        decreases chars@.len() - to,
    {
        assert(t[to - from] == chars@[to as int]);
        to = to + 1;
    }
    proof {
        if to < chars.len() {
            assert(t[to - from] == chars@[to as int]);
            assert(is_space()(t[to - from]));
        }
        index_where_is(t, is_space(), to - from);
    }
    if to >= chars.len() {
        return None;
    }
    let number = part_of(&chars, from, to);
    let command = part_of(&chars, to + 1, chars.len());
    assert(number@ =~= t.take(to - from));
    assert(command@ =~= t.skip(to - from + 1));
    match parse_upto(&number, u32::MAX as u64) {
        Some(n) => Some(Candidate { pid: n as u32, args: split_words(&command) }),
        None => None,
    }
}

/// Whether the image of a process is that of a Codex runtime.
pub open spec fn codex_image(image: Seq<char>) -> bool {
    let name = lowered(trimmed(image));
    name == "codex.exe"@ || name == "chatgpt.exe"@ || name == "codex-code-mode-host.exe"@
}

/// Whether the image of a process is that of a Codex runtime.
pub fn is_codex_image(image: &str) -> (r: bool)
    ensures
        r == codex_image(image@),
{
    let name = to_lower(&trim(image));
    str_eq(&name, "codex.exe") || str_eq(&name, "chatgpt.exe") || str_eq(
        &name,
        "codex-code-mode-host.exe",
    )
}

/// A field of a task list without the quotes round it.
pub open spec fn unquoted(field: Seq<char>) -> Seq<char> {
    crate::urls::trim_end_char(crate::urls::trim_start_char(trimmed(field), '"'), '"')
}

/// The process that a line of a task list gives, where it runs a Codex image and is
/// neither this process nor its parent. Whether it is an app-server its command line
/// tells.
pub open spec fn listed_task(line: Seq<char>, own: u32, parent: Option<u32>) -> Option<nat> {
    let fields = pieces(line, ',');
    if fields.len() < 2 || !codex_image(unquoted(fields[0])) {
        None
    } else {
        match number_upto(unquoted(fields[1]), u32::MAX as nat) {
            Some(pid) => if pid == own as nat || (parent is Some && parent->0 as nat == pid) {
                None
            } else {
                Some(pid)
            },
            None => None,
        }
    }
}

fn unquote(field: &str) -> (r: String)
    ensures
        r@ == unquoted(field@),
{
    crate::urls::without_end(&crate::urls::without_start(&trim(field), '"'), '"')
}

/// The process that a line of a task list gives.
pub fn read_task_line(line: &str, own: u32, parent: Option<u32>) -> (r: Option<u32>)
    ensures
        listed_task(line@, own, parent) == (match r {
            Some(pid) => Some(pid as nat),
            None => None,
        }),
{
    let fields = split(line, ',');
    let ghost all = views(fields@);
    assert(all.len() == fields@.len());
    if fields.len() < 2 {
        return None;
    }
    assert(all[0] == fields@[0]@ && all[1] == fields@[1]@);
    if !is_codex_image(&unquote(&fields[0])) {
        return None;
    }
    match parse_upto(&unquote(&fields[1]), u32::MAX as u64) {
        Some(n) => {
            let pid: u32 = n as u32;
            if pid == own || parent == Some(pid) {
                None
            } else {
                Some(pid)
            }
        },
        None => None,
    }
}

/// Whether a command line holds a text; one that cannot be read counts as if it did.
pub open spec fn line_holds(command_line: Option<String>, needle: Seq<char>) -> bool {
    match command_line {
        Some(line) => trimmed(line@).len() == 0 || has_part(line@, needle),
        None => true,
    }
}

/// Whether a command line holds a text; one that cannot be read counts as if it did.
pub fn process_command_line_contains(command_line: &Option<String>, needle: &str) -> (r: bool)
    ensures
        r == line_holds(*command_line, needle@),
{
    match command_line {
        Some(line) => trim(line).as_str().is_empty() || contains(line, needle),
        None => true,
    }
}

/// A task of a Codex image, with its command line where it could be read.
pub struct Task {
    pub pid: u32,
    pub command_line: Option<String>,
}

/// Whether a process is among the tasks as a Codex app-server.
pub open spec fn selected_task(tasks: Seq<Task>, pid: u32) -> bool {
    exists|i: int|
        {
            &&& 0 <= i < tasks.len()
            &&& (#[trigger] tasks[i]).pid == pid
            &&& line_holds(tasks[i].command_line, "app-server"@)
        }
}

/// The Codex app-servers among listed tasks, in increasing order.
pub fn find_codex_tasks(tasks: &Vec<Task>) -> (r: Vec<u32>)
    ensures
        increasing(r@),
        forall|p: u32| #[trigger] r@.contains(p) <==> selected_task(tasks@, p),
{
    let mut out: Vec<u32> = Vec::new();
    let mut i: usize = 0;
    while i < tasks.len()
        invariant
            i <= tasks@.len(),
            increasing(out@),
            forall|p: u32|
                #[trigger] out@.contains(p) <==> selected_task(tasks@.take(i as int), p),
        decreases tasks@.len() - i,
    {
        let t = &tasks[i];
        let ghost before = out@;
        let hit = process_command_line_contains(&t.command_line, "app-server");
        if hit {
            insert_pid(&mut out, t.pid);
        }
        proof {
            let less = tasks@.take(i as int);
            let more = tasks@.take(i + 1);
            assert forall|p: u32| #[trigger] out@.contains(p) <==> selected_task(more, p) by {
                assert(before.contains(p) <==> selected_task(less, p));
                if selected_task(less, p) {
                    let j = choose|j: int|
                        {
                            &&& 0 <= j < less.len()
                            &&& (#[trigger] less[j]).pid == p
                            &&& line_holds(less[j].command_line, "app-server"@)
                        };
                    assert(more[j] == less[j]);
                }
                if hit && p == t.pid {
                    assert(more[i as int] == *t);
                }
                if selected_task(more, p) {
                    let j = choose|j: int|
                        {
                            &&& 0 <= j < more.len()
                            &&& (#[trigger] more[j]).pid == p
                            &&& line_holds(more[j].command_line, "app-server"@)
                        };
                    if j < i {
                        assert(less[j] == more[j]);
                    } else {
                        assert(more[j] == *t);
                    }
                }
            }
        }
        i = i + 1;
    }
    assert(tasks@.take(i as int) =~= tasks@);
    out
}

/// How often a process that was asked to end is looked at before it is killed.
pub const TERMINATION_POLLS: u32 = 20;

/// The next step of ending a process.
#[derive(Debug, Clone, Copy, PartialEq, Eq, Structural)]
pub enum EndStep {
    /// It is looked at again after a pause; so often it was looked at already.
    Poll(u32),
    /// It is killed.
    Kill,
    /// It is gone, or it is not.
    Report(bool),
}

/// The step after a process was asked to end.
pub open spec fn after_asking(sent: bool, no_such_process: bool) -> EndStep {
    if sent {
        EndStep::Poll(0)
    } else {
        EndStep::Report(no_such_process)
    }
}

/// The step after a process that is to end was looked at.
pub open spec fn after_looking(polls: u32, alive: bool) -> EndStep {
    if !alive {
        EndStep::Report(true)
    } else if polls + 1 < TERMINATION_POLLS {
        EndStep::Poll((polls + 1) as u32)
    } else {
        EndStep::Kill
    }
}

/// Goes on once a process was asked to end; one that was not there is gone.
pub fn end_requested(sent: bool, no_such_process: bool) -> (r: EndStep)
    ensures
        r == after_asking(sent, no_such_process),
{
    if sent {
        EndStep::Poll(0)
    } else {
        EndStep::Report(no_such_process)
    }
}

/// Goes on once a process was looked at.
pub fn end_polled(polls: u32, alive: bool) -> (r: EndStep)
    ensures
        r == after_looking(polls, alive),
{
    if !alive {
        EndStep::Report(true)
    } else if polls < TERMINATION_POLLS - 1 {
        EndStep::Poll(polls + 1)
    } else {
        EndStep::Kill
    }
}

/// Goes on once a process was killed: what is reported is whether it is gone.
pub fn end_killed(alive: bool) -> (r: EndStep)
    ensures
        r == EndStep::Report(!alive),
{
    EndStep::Report(!alive)
}

/// What is reported of a restart: the processes that are gone.
#[derive(Debug)]
pub struct RestartCodexReport {
    pub terminated_pids: Vec<u32>,
    pub message: String,
}

/// What is reported of a restart, by which of the processes are gone.
pub fn restart_report(pids: &Vec<u32>, gone: &Vec<bool>) -> (r: RestartCodexReport)
    requires
        pids@.len() == gone@.len(),
    ensures
        r.terminated_pids@ == gone_pids(pids@, gone@),
        r.message@
            == "Codex background app-server terminated. Desktop/CLI will reload credentials on next invocation or window focus."@,
{
    let mut out: Vec<u32> = Vec::new();
    let mut i: usize = 0;
    while i < pids.len()
        invariant
            i <= pids@.len(),
            pids@.len() == gone@.len(),
            out@ == gone_pids(pids@.take(i as int), gone@.take(i as int)),
        decreases pids@.len() - i,
    {
        assert(pids@.take(i + 1).drop_last() =~= pids@.take(i as int));
        assert(gone@.take(i + 1).drop_last() =~= gone@.take(i as int));
        if gone[i] {
            out.push(pids[i]);
        }
        i = i + 1;
    }
    assert(pids@.take(i as int) =~= pids@);
    assert(gone@.take(i as int) =~= gone@);
    RestartCodexReport {
        terminated_pids: out,
        message: "Codex background app-server terminated. Desktop/CLI will reload credentials on next invocation or window focus.".to_owned(),
    }
}

/// The processes that are gone.
pub open spec fn gone_pids(pids: Seq<u32>, gone: Seq<bool>) -> Seq<u32>
    decreases pids.len(),
{
    if pids.len() == 0 {
        Seq::empty()
    } else if gone.last() {
        gone_pids(pids.drop_last(), gone.drop_last()).push(pids.last())
    } else {
        gone_pids(pids.drop_last(), gone.drop_last())
    }
}

/// The name of a program is the last name in its path, in small letters.
pub proof fn programs_are_named_by_their_file(dir: Seq<char>, name: Seq<char>)
    requires
        name.len() > 0,
        !name.contains('/'),
        name != "."@,
        name != ".."@,
    ensures
        file_name(name) == Some(name),
        file_name(dir + seq!['/'] + name) == Some(name),
        program_name(dir + seq!['/'] + name) == lowered(name),
{
    last_piece(dir, name);
    let p = pieces(name, '/');
    crate::text::pieces_make_up_the_text(name, '/');
    assert(p[0] == name);
    assert(p.last() == name);
    assert(named()(name));
}

proof fn last_piece(dir: Seq<char>, name: Seq<char>)
    requires
        !name.contains('/'),
    ensures
        pieces(dir + seq!['/'] + name, '/').len() > 1,
        pieces(dir + seq!['/'] + name, '/').last() == name,
    decreases dir.len(),
{
    let path = dir + seq!['/'] + name;
    crate::text::first_index_is(path, '/');
    let i = crate::text::first_index(path, '/');
    assert(path[dir.len() as int] == '/');
    assert(i <= dir.len());
    let rest = path.skip(i + 1);
    let p = pieces(path, '/');
    assert(p == seq![path.take(i)] + pieces(rest, '/'));
    if i == dir.len() {
        assert(rest =~= name);
        crate::text::pieces_make_up_the_text(name, '/');
        assert(pieces(name, '/').len() == 1);
        assert(p.last() == pieces(rest, '/')[0]);
    } else {
        let less = dir.skip(i + 1);
        assert(rest =~= less + seq!['/'] + name);
        last_piece(less, name);
        assert(p.last() == pieces(rest, '/').last());
    }
}

/// A process is an app-server of Codex where its program's name begins with `codex`, but not
/// with the name of this program, one of its other arguments is `app-server`, and it is
/// neither this process nor its parent.
pub proof fn app_servers_are_told_by_their_arguments(
    args: Seq<Seq<char>>,
    pid: u32,
    own: u32,
    parent: Option<u32>,
)
    ensures
        is_app_server(args, pid, own, parent) <==> {
            &&& args.len() > 0
            &&& "codex"@.is_prefix_of(program_name(args[0]))
            &&& !"codex-mp"@.is_prefix_of(program_name(args[0]))
            &&& pid != own
            &&& parent is None || parent->0 != pid
            &&& exists|i: int| 1 <= i < args.len() && #[trigger] args[i] == "app-server"@
        },
{
    if args.len() > 0 {
        let rest = args.drop_first();
        crate::search::index_where_bounds(rest, server_argument());
        let k = index_where(rest, server_argument());
        if k < rest.len() {
            assert(server_argument()(rest[k]));
            assert(args[k + 1] == rest[k]);
        }
        if exists|i: int| 1 <= i < args.len() && #[trigger] args[i] == "app-server"@ {
            let i = choose|i: int| 1 <= i < args.len() && #[trigger] args[i] == "app-server"@;
            assert(rest[i - 1] == args[i]);
            assert(server_argument()(rest[i - 1]));
        }
    }
}

/// The image of a Codex runtime has one of three names; capitals and blanks do not matter.
pub proof fn images_have_known_names(image: Seq<char>)
    ensures
        codex_image(image) <==> lowered(trimmed(image)) == "codex.exe"@ || lowered(trimmed(image))
            == "chatgpt.exe"@ || lowered(trimmed(image)) == "codex-code-mode-host.exe"@,
{
}

/// A line of a task list names a process by its second field, where the first is a Codex image;
/// this process and its parent are left out.
pub proof fn tasks_are_named_by_two_fields(line: Seq<char>, own: u32, parent: Option<u32>)
    requires
        listed_task(line, own, parent) is Some,
    ensures
        ({
            let fields = pieces(line, ',');
            let pid = listed_task(line, own, parent)->0;
            &&& fields.len() >= 2
            &&& codex_image(unquoted(fields[0]))
            &&& number_upto(unquoted(fields[1]), 0xffff_ffff) == Some(pid)
            &&& pid != own
            &&& parent is Some ==> pid != parent->0
        }),
{
}

/// The processes that are reported as ended are those that are gone, in their order.
pub proof fn reports_name_what_is_gone(pids: Seq<u32>, gone: Seq<bool>, pid: u32, is_gone: bool)
    requires
        pids.len() == gone.len(),
    ensures
        gone_pids(Seq::empty(), Seq::empty()) == Seq::<u32>::empty(),
        gone_pids(pids.push(pid), gone.push(is_gone)) == (if is_gone {
            gone_pids(pids, gone).push(pid)
        } else {
            gone_pids(pids, gone)
        }),
{
    assert(pids.push(pid).drop_last() =~= pids);
    assert(gone.push(is_gone).drop_last() =~= gone);
}

/// A command line that cannot be read, or is blank, counts as if it held what is looked for.
pub proof fn unreadable_lines_count(line: String, needle: Seq<char>)
    ensures
        line_holds(None, needle),
        line_holds(Some(line), needle) <==> blank(line@) || has_part(line@, needle),
{
}

/// How a process is ended: one that was asked is looked at up to twenty times, then killed;
/// one that is gone is reported as such, and so is one that was not there.
pub proof fn processes_are_asked_before_they_are_killed(polls: u32, alive: bool, missing: bool)
    ensures
        after_asking(true, missing) == EndStep::Poll(0),
        after_asking(false, missing) == EndStep::Report(missing),
        !alive ==> after_looking(polls, alive) == EndStep::Report(true),
        alive && polls < 19 ==> after_looking(polls, alive) == EndStep::Poll((polls + 1) as u32),
        alive && polls >= 19 ==> after_looking(polls, alive) == EndStep::Kill,
{
}

/// The processes that are found are listed in increasing order, each once; a candidate is found
/// where its arguments say so, and a task where its command line does.
pub proof fn found_processes_say_so(
    found: Seq<u32>,
    candidates: Seq<Candidate>,
    tasks: Seq<Task>,
    own: u32,
    parent: Option<u32>,
    i: int,
)
    ensures
        increasing(found) && 0 <= i < found.len() - 1 ==> found[i] < found[i + 1],
        0 <= i < candidates.len() && is_app_server(
            views(candidates[i].args@),
            candidates[i].pid,
            own,
            parent,
        ) ==> selected(candidates, own, parent, candidates[i].pid),
        !selected(candidates, own, parent, own),
        0 <= i < tasks.len() && (tasks[i].command_line is None || has_part(
            tasks[i].command_line->0@,
            "app-server"@,
        )) ==> selected_task(tasks, tasks[i].pid),
{
}

/// The words of a text are what stands between its white space, in order.
pub proof fn words_stand_between_spaces(word: Seq<char>, rest: Seq<char>, c: char)
    requires
        word.len() > 0,
        forall|i: int| 0 <= i < word.len() ==> !white(#[trigger] word[i]),
        white(c),
    ensures
        words(Seq::<char>::empty()) == Seq::<Seq<char>>::empty(),
        words(word) == seq![word],
        words(seq![c] + rest) == words(rest),
        words(word + seq![c] + rest) == seq![word] + words(rest),
{
    let s = word + seq![c] + rest;
    assert forall|j: int| 0 <= j < word.len() implies !is_space()(#[trigger] s[j]) by {
        assert(s[j] == word[j]);
    }
    assert(s[word.len() as int] == c);
    index_where_is(s, is_space(), word.len() as int);
    assert(s.take(word.len() as int) =~= word);
    let tail = s.skip(word.len() as int);
    assert(tail =~= seq![c] + rest);
    assert((seq![c] + rest)[0] == c);
    assert((seq![c] + rest).drop_first() =~= rest);
    assert(!white(s[0])) by {
        assert(s[0] == word[0]);
    }
    index_where_is(word, is_space(), word.len() as int);
    assert(word.take(word.len() as int) =~= word);
    assert(word.skip(word.len() as int) =~= Seq::<char>::empty());
    assert(words(tail) == words(rest)) by {
        assert(tail[0] == c);
        assert(tail.drop_first() =~= rest);
    }
    assert(words(s) == seq![s.take(word.len() as int)] + words(tail));
    assert(words(Seq::<char>::empty()) =~= Seq::<Seq<char>>::empty());
    assert(words(word) == seq![word] + words(word.skip(word.len() as int)));
    assert(words(word) =~= seq![word]);
}

/// A line of a process list gives the number of the process and, after a space, the words of its
/// command.
pub proof fn process_lines_give_number_and_command(pid: nat, command: Seq<char>)
    requires
        pid <= 0xffff_ffff,
    ensures
        listed_process(crate::text::decimal(pid) + seq![' '] + command) == Some(
            (pid, words(command)),
        ),
{
    let d = crate::text::decimal(pid);
    let line = d + seq![' '] + command;
    crate::text::written_numbers_read_back(pid, 0xffff_ffff);
    crate::text::only_digits_are_numbers(d, 0xffff_ffff);
    assert(line[0] == d[0]);
    assert(!white(line[0]));
    assert(trim_start(line) == line);
    assert forall|j: int| 0 <= j < d.len() implies !is_space()(#[trigger] line[j]) by {
        assert(line[j] == d[j]);
    }
    assert(line[d.len() as int] == ' ');
    index_where_is(line, is_space(), d.len() as int);
    assert(line.take(d.len() as int) =~= d);
    assert(line.skip(d.len() as int + 1) =~= command);
}

proof fn part_goes_up_to_the_zero(a: Seq<u8>, rest: Seq<u8>, part: Seq<u8>)
    requires
        forall|i: int| 0 <= i < a.len() ==> #[trigger] a[i] != 0,
    ensures
        nul_parts(a + seq![0u8] + rest, part) == (if (part + a).len() > 0 {
            seq![part + a] + nul_parts(rest, Seq::empty())
        } else {
            nul_parts(rest, Seq::empty())
        }),
    decreases a.len(),
{
    let s = a + seq![0u8] + rest;
    if a.len() == 0 {
        assert(s[0] == 0);
        assert(s.drop_first() =~= rest);
        assert(part + a =~= part);
    } else {
        let less = a.drop_first();
        assert(s[0] == a[0]);
        assert(s.drop_first() =~= less + seq![0u8] + rest);
        assert forall|i: int| 0 <= i < less.len() implies #[trigger] less[i] != 0 by {
            assert(less[i] == a[i + 1]);
        }
        part_goes_up_to_the_zero(less, rest, part.push(a[0]));
        assert(part.push(a[0]) + less =~= part + a);
    }
}

/// The arguments of a command are what stands between the zeros of its record, in order; nothing
/// stands for an argument that is empty.
pub proof fn arguments_stand_between_zeros(argument: Seq<u8>, rest: Seq<u8>)
    requires
        argument.len() > 0,
        forall|i: int| 0 <= i < argument.len() ==> #[trigger] argument[i] != 0,
    ensures
        nul_arguments(Seq::<u8>::empty()) == Seq::<Seq<char>>::empty(),
        nul_arguments(argument + seq![0u8] + rest) == seq![lossy_text(argument)] + nul_arguments(
            rest,
        ),
        nul_arguments(seq![0u8] + rest) == nul_arguments(rest),
{
    part_goes_up_to_the_zero(argument, rest, Seq::empty());
    part_goes_up_to_the_zero(Seq::empty(), rest, Seq::empty());
    assert(Seq::<u8>::empty() + argument =~= argument);
    assert(Seq::<u8>::empty() + seq![0u8] + rest =~= seq![0u8] + rest);
    let more = nul_parts(rest, Seq::empty());
    assert((seq![argument] + more).map_values(|p: Seq<u8>| lossy_text(p)) =~= seq![
        lossy_text(argument),
    ] + more.map_values(|p: Seq<u8>| lossy_text(p)));
    assert(nul_arguments(Seq::<u8>::empty()) =~= Seq::<Seq<char>>::empty());
}

} // verus!
