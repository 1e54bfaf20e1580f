//! What holds of the base command and of the protocol as a whole.

use vstd::prelude::*;
use crate::command::{
    assignment, assignments, base_command_text, base_words, forwarded, is_forwarded, is_sorted,
    lemma_forwarded_push, lemma_name_le_antisymmetric, lemma_sort_is_sorted, lemma_sort_permutes,
    name_le, sort_by_name,
};
use crate::protocol::{instruction, verb, words, InstructionView};
use crate::server::{
    destroy_command_text, listing, reply_text, state_list_command_text, step, ActionView,
    EventView, Outcome, Phase,
};
use crate::text::{
    free_of, join, lemma_join_free_of_part, lemma_join_holds_part, lemma_nonempty_keeps_all,
    lemma_nonempty_members, lemma_nonempty_push, lemma_split_append_free, lemma_split_first,
    lemma_split_join, lemma_split_pieces_free, nonempty, occurs_at, occurs_in, split,
};

verus! {

/// What stands before the project directory in the base command: the
/// assignments and the tool, one space between each two, and the flag's name.
pub open spec fn base_front(vars: Seq<(Seq<char>, Seq<char>)>) -> Seq<char> {
    join(assignments(sort_by_name(forwarded(vars))) + seq!["terraform"@], seq![' '])
        + " -chdir="@
}

/// The variables in the base command are the forwarded ones: each of them is
/// one of `vars` with the prefix, and each of `vars` with the prefix is one of
/// them.
pub proof fn lemma_forwarded_members(vars: Seq<(Seq<char>, Seq<char>)>)
    ensures
        forall|j: int|
            0 <= j < sort_by_name(forwarded(vars)).len() ==> is_forwarded(
                (#[trigger] sort_by_name(forwarded(vars))[j]).0,
            ) && vars.contains(sort_by_name(forwarded(vars))[j]),
        forall|i: int|
            0 <= i < vars.len() && is_forwarded(vars[i].0) ==> sort_by_name(
                forwarded(vars),
            ).contains(#[trigger] vars[i]),
{
    broadcast use vstd::seq_lib::group_to_multiset_ensures;

    let pred = |v: (Seq<char>, Seq<char>)| is_forwarded(v.0);
    let kept = forwarded(vars);
    let sorted = sort_by_name(kept);
    lemma_sort_permutes(kept);
    #[allow(deprecated)]
    vars.filter_lemma(pred);
    assert forall|j: int| 0 <= j < sorted.len() implies is_forwarded((#[trigger] sorted[j]).0)
        && vars.contains(sorted[j]) by {
        assert(kept.to_multiset().count(sorted[j]) > 0);
        vars.lemma_filter_contains_rev(pred, sorted[j]);
    }
    assert forall|i: int| 0 <= i < vars.len() && is_forwarded(vars[i].0) implies sorted.contains(
        #[trigger] vars[i],
    ) by {
        assert(sorted.to_multiset().count(vars[i]) > 0);
    }
}

/// The base command holds the assignment of every variable whose name begins
/// with the prefix.
pub proof fn lemma_base_command_holds_assignment(
    vars: Seq<(Seq<char>, Seq<char>)>,
    chdir: Seq<char>,
    i: int,
)
    requires
        0 <= i < vars.len(),
        is_forwarded(vars[i].0),
    ensures
        occurs_in(base_command_text(vars, chdir), assignment(vars[i])),
{
    let sorted = sort_by_name(forwarded(vars));
    lemma_forwarded_members(vars);
    let j = choose|j: int| 0 <= j < sorted.len() && sorted[j] == vars[i];
    lemma_join_holds_part(base_words(vars, chdir), seq![' '], j);
}

/// The project directory stands at the end of the base command, and what
/// stands before it does not depend on it: another directory changes the
/// value of the flag and nothing else.
pub proof fn lemma_base_command_directory(vars: Seq<(Seq<char>, Seq<char>)>, chdir: Seq<char>)
    ensures
        base_command_text(vars, chdir) == base_front(vars) + chdir,
{
    reveal_strlit(" -chdir=");
    reveal_strlit("-chdir=");
    let assigned = assignments(sort_by_name(forwarded(vars)));
    let words = base_words(vars, chdir);
    assert(words.drop_last() == assigned + seq!["terraform"@]);
    assert(base_command_text(vars, chdir) == join(words.drop_last(), seq![' ']) + seq![' '] + (
    "-chdir="@ + chdir));
}

/// Between a front that ends in a space, or is empty, and a directory, the
/// tool and the flag hold the flag's name once.
proof fn lemma_flag_once(front: Seq<char>, chdir: Seq<char>, at: int)
    requires
        front.len() == 0 || front.last() == ' ',
        !occurs_in(front, "-chdir="@),
        !occurs_in(chdir, "-chdir="@),
    ensures
        occurs_at(front + "terraform -chdir="@ + chdir, "-chdir="@, at) <==> at == front.len() + 10,
{
    reveal_strlit("-chdir=");
    reveal_strlit("terraform -chdir=");
    let flag = "-chdir="@;
    let middle = "terraform -chdir="@;
    let text = front + middle + chdir;
    if at == front.len() + 10 {
        assert(text.subrange(at, at + 7) == flag);
    }
    if occurs_at(text, flag, at) {
        let found = text.subrange(at, at + 7);
        assert(found[0] == '-');
        if at + 7 <= front.len() {
            assert(front.subrange(at, at + 7) == found);
            assert(occurs_at(front, flag, at));
        } else if at < front.len() {
            assert(found[front.len() - 1 - at] == ' ');
        } else if at >= front.len() + 17 {
            let from = at - front.len() - 17;
            assert(chdir.subrange(from, from + 7) == found);
            assert(occurs_at(chdir, flag, from));
        }
    }
}

/// The base command holds the flag for the project directory once: where
/// neither a forwarded variable nor the directory holds the text `-chdir=`,
/// that text stands in the base command at one place only, right before the
/// directory.
pub proof fn lemma_base_command_one_flag(
    vars: Seq<(Seq<char>, Seq<char>)>,
    chdir: Seq<char>,
    at: int,
)
    requires
        forall|i: int|
            0 <= i < vars.len() && is_forwarded(vars[i].0) ==> !occurs_in(
                assignment(#[trigger] vars[i]),
                "-chdir="@,
            ),
        !occurs_in(chdir, "-chdir="@),
    ensures
        occurs_at(base_command_text(vars, chdir), "-chdir="@, at) <==> at + 7 == base_front(
            vars,
        ).len(),
{
    reveal_strlit("-chdir=");
    reveal_strlit(" -chdir=");
    reveal_strlit("terraform");
    reveal_strlit("terraform -chdir=");
    let flag = "-chdir="@;
    let sorted = sort_by_name(forwarded(vars));
    let assigned = assignments(sorted);
    let segment = join(assigned, seq![' ']);
    let front = if assigned.len() == 0 {
        Seq::<char>::empty()
    } else {
        segment + seq![' ']
    };
    lemma_base_command_directory(vars, chdir);
    lemma_forwarded_members(vars);
    assert forall|j: int| 0 <= j < assigned.len() implies !occurs_in(#[trigger] assigned[j], flag) by {
        let i = choose|i: int| 0 <= i < vars.len() && vars[i] == sorted[j];
        assert(assigned[j] == assignment(vars[i]));
    }
    lemma_join_free_of_part(assigned, ' ', flag);
    assert(!occurs_in(front, flag)) by {
        assert forall|k: int| !occurs_at(front, flag, k) by {
            if occurs_at(front, flag, k) {
                let found = front.subrange(k, k + 7);
                if k + 7 <= segment.len() {
                    assert(segment.subrange(k, k + 7) == found);
                    assert(occurs_at(segment, flag, k));
                } else {
                    assert(found[segment.len() - k] == ' ');
                }
            }
        }
    }
    assert(join(assigned + seq!["terraform"@], seq![' ']) == front + "terraform"@) by {
        if assigned.len() > 0 {
            assert((assigned + seq!["terraform"@]).drop_last() == assigned);
        }
    }
    assert(base_command_text(vars, chdir) == front + "terraform -chdir="@ + chdir);
    lemma_flag_once(front, chdir, at);
}

/// No two of the variables have one name.
pub open spec fn names_differ(vars: Seq<(Seq<char>, Seq<char>)>) -> bool {
    forall|i: int, j: int| 0 <= i < j < vars.len() ==> (#[trigger] vars[i]).0 != (#[trigger] vars[j]).0
}

/// What stands at two places of a sequence stands in it twice.
proof fn lemma_twice<A>(s: Seq<A>, i: int, j: int)
    requires
        0 <= i < j < s.len(),
        s[i] == s[j],
    ensures
        s.to_multiset().count(s[i]) >= 2,
{
    broadcast use vstd::seq_lib::group_to_multiset_ensures;

    assert(s.remove(i)[j - 1] == s[j]);
    assert(s.remove(i).to_multiset().count(s[i]) > 0);
}

/// What stands in a sequence twice stands at two places of it.
proof fn lemma_two_places<A>(s: Seq<A>, a: A) -> (places: (int, int))
    requires
        s.to_multiset().count(a) >= 2,
    ensures
        0 <= places.0 < places.1 < s.len(),
        s[places.0] == a,
        s[places.1] == a,
{
    broadcast use vstd::seq_lib::group_to_multiset_ensures;

    let i = choose|i: int| 0 <= i < s.len() && s[i] == a;
    assert(s.remove(i).to_multiset().count(a) >= 1);
    let k = choose|k: int| 0 <= k < s.remove(i).len() && s.remove(i)[k] == a;
    if k < i {
        (k, i)
    } else {
        (i, k + 1)
    }
}

/// A variable is forwarded as often as it is given, if its name has the
/// prefix, and not at all if not.
proof fn lemma_forwarded_count(vars: Seq<(Seq<char>, Seq<char>)>, v: (Seq<char>, Seq<char>))
    ensures
        forwarded(vars).to_multiset().count(v) == (if is_forwarded(v.0) {
            vars.to_multiset().count(v)
        } else {
            0
        }),
    decreases vars.len(),
{
    broadcast use vstd::seq_lib::group_to_multiset_ensures;

    if vars.len() == 0 {
        reveal(Seq::filter);
    } else {
        lemma_forwarded_count(vars.drop_last(), v);
        lemma_forwarded_push(vars.drop_last(), vars.last());
        assert(vars.drop_last().push(vars.last()) == vars);
    }
}

/// Two sorted sequences of the same variables, no two of one name, are one
/// sequence.
proof fn lemma_sorted_unique(a: Seq<(Seq<char>, Seq<char>)>, b: Seq<(Seq<char>, Seq<char>)>)
    requires
        is_sorted(a),
        is_sorted(b),
        names_differ(a),
        a.to_multiset() == b.to_multiset(),
    ensures
        a == b,
    decreases a.len(),
{
    broadcast use vstd::seq_lib::group_to_multiset_ensures;

    vstd::seq_lib::to_multiset_len(a);
    vstd::seq_lib::to_multiset_len(b);
    if a.len() > 0 {
        let last = a.len() - 1;
        let v = a[last];
        assert(b.contains(v)) by {
            assert(a.to_multiset().count(v) > 0);
        }
        let k = choose|k: int| 0 <= k < b.len() && b[k] == v;
        let a0 = a.remove(last);
        let b0 = b.remove(k);
        assert(is_sorted(a0) && names_differ(a0)) by {
            assert forall|i: int| 0 <= i < a0.len() implies a0[i] == a[i] by {}
        }
        assert(is_sorted(b0)) by {
            assert forall|i: int, j: int| 0 <= i < j < b0.len() implies name_le(
                #[trigger] b0[i].0,
                #[trigger] b0[j].0,
            ) by {
                let from = if i < k { i } else { i + 1 };
                let to = if j < k { j } else { j + 1 };
                assert(b0[i] == b[from] && b0[j] == b[to]);
            }
        }
        lemma_sorted_unique(a0, b0);
        if k < last {
            assert(b[last] == b0[last - 1]);
            lemma_name_le_antisymmetric(a[last - 1].0, a[last].0);
        }
        assert(b == b0.push(v));
    }
}

/// The base command does not depend on the order in which the variables are
/// given: where no two have one name, the same variables in any order give
/// the same command.
pub proof fn lemma_base_command_any_order(
    vars: Seq<(Seq<char>, Seq<char>)>,
    others: Seq<(Seq<char>, Seq<char>)>,
    chdir: Seq<char>,
)
    requires
        names_differ(vars),
        vars.to_multiset() == others.to_multiset(),
    ensures
        base_command_text(vars, chdir) == base_command_text(others, chdir),
{
    broadcast use vstd::seq_lib::group_to_multiset_ensures;

    let a = sort_by_name(forwarded(vars));
    let b = sort_by_name(forwarded(others));
    lemma_sort_is_sorted(forwarded(vars));
    lemma_sort_is_sorted(forwarded(others));
    lemma_sort_permutes(forwarded(vars));
    lemma_sort_permutes(forwarded(others));
    assert(a.to_multiset() =~= b.to_multiset()) by {
        assert forall|v: (Seq<char>, Seq<char>)| a.to_multiset().count(v) == b.to_multiset().count(
            v,
        ) by {
            lemma_forwarded_count(vars, v);
            lemma_forwarded_count(others, v);
        }
    }
    assert(names_differ(a)) by {
        assert forall|i: int, j: int| 0 <= i < j < a.len() implies (#[trigger] a[i]).0 != (
        #[trigger] a[j]).0 by {
            if a[i].0 == a[j].0 {
                lemma_forwarded_count(vars, a[i]);
                lemma_forwarded_count(vars, a[j]);
                if a[i] == a[j] {
                    lemma_twice(a, i, j);
                    let places = lemma_two_places(vars, a[i]);
                    assert(vars[places.0].0 == vars[places.1].0);
                } else {
                    let p = choose|p: int| 0 <= p < vars.len() && vars[p] == a[i];
                    let q = choose|q: int| 0 <= q < vars.len() && vars[q] == a[j];
                    assert(vars[p].0 == vars[q].0 && p != q);
                }
            }
        }
    }
    lemma_sorted_unique(a, b);
}

/// A listed resource holds at least one character and no line feed.
pub proof fn lemma_listing_resources(code: Option<i32>, stdout: Seq<char>)
    ensures
        forall|i: int|
            0 <= i < listing(code, stdout).len() ==> (#[trigger] listing(code, stdout)[i]).len() > 0
                && free_of(listing(code, stdout)[i], '\n'),
        code != Some(0i32) ==> listing(code, stdout).len() == 0,
{
    if code == Some(0i32) {
        let lines = split(stdout, '\n');
        lemma_nonempty_members(lines);
        lemma_split_pieces_free(stdout, '\n');
        assert forall|i: int| 0 <= i < nonempty(lines).len() implies free_of(
            #[trigger] nonempty(lines)[i],
            '\n',
        ) by {
            let found = choose|k: int| 0 <= k < lines.len() && lines[k] == nonempty(lines)[i];
            assert(free_of(lines[found], '\n'));
        }
    }
}

/// The lines of a reply are the resources it was written from and one empty
/// line behind the last line feed.
pub proof fn lemma_reply_lines(resources: Seq<Seq<char>>)
    requires
        forall|i: int| 0 <= i < resources.len() ==> free_of(#[trigger] resources[i], '\n'),
    ensures
        split(reply_text(resources), '\n') == resources.push(Seq::<char>::empty()),
    decreases resources.len(),
{
    if resources.len() > 0 {
        let init = resources.drop_last();
        let front = reply_text(init);
        lemma_reply_lines(init);
        lemma_split_append_free(front, resources.last(), '\n');
        assert((front + resources.last() + seq!['\n']).drop_last() == front + resources.last());
    }
}

/// The reply to `list` holds what the backend listed: read back line by line,
/// empty lines left out, it gives the listed resources in order.
pub proof fn lemma_reply_lists_resources(code: Option<i32>, stdout: Seq<char>)
    ensures
        nonempty(split(reply_text(listing(code, stdout)), '\n')) == listing(code, stdout),
        listing(Some(0i32), reply_text(listing(code, stdout))) == listing(code, stdout),
{
    let resources = listing(code, stdout);
    lemma_listing_resources(code, stdout);
    lemma_reply_lines(resources);
    lemma_nonempty_push(resources, Seq::<char>::empty());
    lemma_nonempty_keeps_all(resources);
}

/// A `list` connection ends with the reply: whatever the listing command
/// printed, the server answers with the listed resources, one per line, and
/// awaits the next connection.
pub proof fn lemma_list_replies(base: Seq<char>, code: Option<i32>, stdout: Seq<char>)
    ensures
        step(Phase::Listing, base, EventView::Exited { code, stdout }).0 == Phase::Accepting,
        step(Phase::Listing, base, EventView::Exited { code, stdout }).1 matches ActionView::Reply(
            text,
            _,
        ) && nonempty(split(text, '\n')) == listing(code, stdout),
{
    lemma_reply_lists_resources(code, stdout);
}

/// `kill` and a resource name without space or line feed, alone or followed by
/// a line feed and anything, is the instruction to destroy that resource.
pub proof fn lemma_kill_names_resource(name: Seq<char>, rest: Seq<char>)
    requires
        free_of(name, ' '),
        free_of(name, '\n'),
    ensures
        instruction("kill "@ + name) == Some(InstructionView::Kill(name)),
        instruction("kill "@ + name + seq!['\n'] + rest) == Some(InstructionView::Kill(name)),
{
    reveal_strlit("kill ");
    reveal_strlit("kill");
    reveal_strlit("list");
    let line = "kill "@ + name;
    let pieces = seq!["kill"@, name];
    lemma_split_first(line, rest, '\n');
    assert(join(pieces, seq![' ']) == line) by {
        assert(pieces.drop_last() == seq!["kill"@]);
        assert(join(seq!["kill"@], seq![' ']) == "kill"@);
    }
    lemma_split_join(pieces, ' ');
    assert("kill"@ != "list"@) by {
        assert("kill"@[0] != "list"@[0]);
    }
}

/// `kill <name>` has the named resource destroyed once and nothing listed:
/// the server asks for the destroy command, which is not the listing command,
/// and whatever is reported next, it lets the connection go without running
/// anything more.
pub proof fn lemma_kill_destroys_once(base: Seq<char>, name: Seq<char>, rest: Seq<char>, next: EventView)
    requires
        free_of(name, ' '),
        free_of(name, '\n'),
    ensures
        step(Phase::Reading, base, EventView::Received("kill "@ + name)) == (
            Phase::Killing,
            ActionView::Run(destroy_command_text(base, name)),
        ),
        step(Phase::Reading, base, EventView::Received("kill "@ + name + seq!['\n'] + rest)) == (
            Phase::Killing,
            ActionView::Run(destroy_command_text(base, name)),
        ),
        destroy_command_text(base, name) != state_list_command_text(base),
        step(Phase::Killing, base, next).0 == Phase::Accepting,
        step(Phase::Killing, base, next).1 is Close,
{
    lemma_kill_names_resource(name, rest);
    reveal_strlit(" destroy -auto-approve -target ");
    reveal_strlit(" state list");
    assert(destroy_command_text(base, name)[base.len() as int + 1] == 'd');
}

/// A message whose verb is neither `list` nor `kill` is rejected: nothing is
/// run, nothing is sent, and the next connection is awaited.
pub proof fn lemma_unknown_verb_rejected(base: Seq<char>, message: Seq<char>)
    requires
        verb(message) != "list"@,
        verb(message) != "kill"@,
    ensures
        instruction(message).is_none(),
        step(Phase::Reading, base, EventView::Received(message)) == (
            Phase::Accepting,
            ActionView::Close(Outcome::Rejected),
        ),
{
}

/// An empty message is rejected.
pub proof fn lemma_empty_input_rejected(base: Seq<char>)
    ensures
        instruction(Seq::<char>::empty()).is_none(),
        step(Phase::Reading, base, EventView::Received(Seq::<char>::empty())) == (
            Phase::Accepting,
            ActionView::Close(Outcome::Rejected),
        ),
{
    reveal_strlit("list");
    reveal_strlit("kill");
}

/// The backend is run only for an instruction that was read: a command is
/// asked for in no phase but `Reading`, and there only on a message whose verb
/// is `list` or `kill`.
pub proof fn lemma_run_only_on_instruction(phase: Phase, base: Seq<char>, event: EventView)
    requires
        step(phase, base, event).1 is Run,
    ensures
        phase == Phase::Reading,
        event matches EventView::Received(message) && (verb(message) == "list"@ || verb(message)
            == "kill"@),
{
}

/// Every command that is run starts with the base command and a space.
pub proof fn lemma_run_starts_with_base(phase: Phase, base: Seq<char>, event: EventView)
    ensures
        step(phase, base, event).1 matches ActionView::Run(command) ==> (base + seq![' ']).is_prefix_of(
            command,
        ),
{
    reveal_strlit(" state list");
    reveal_strlit(" destroy -auto-approve -target ");
    if let ActionView::Run(command) = step(phase, base, event).1 {
        assert(command.subrange(0, base.len() as int + 1) == base + seq![' ']);
    }
}

/// A connection has one command run at most: after a command was asked for,
/// whatever is reported next ends the connection, and no second command is
/// asked for.
pub proof fn lemma_one_command_per_connection(
    phase: Phase,
    base: Seq<char>,
    event: EventView,
    next: EventView,
)
    requires
        step(phase, base, event).1 is Run,
    ensures
        step(step(phase, base, event).0, base, next).0 == Phase::Accepting,
        !(step(step(phase, base, event).0, base, next).1 is Run),
{
}

} // verus!
