//! The command lines that are handed to a shell: terraform's, with the
//! environment variables that are passed on to it, and docker's.

use vstd::prelude::*;
use vstd::std_specs::iter::IteratorSpec;
use vstd::string::StringExecFns;
use crate::options::Opt;
use crate::text::{as_strs, join, join_text, starts_with, texts};

verus! {

/// The prefix of the environment variables that are handed on to terraform.
pub const TF_PREFIX: &'static str = "TF_";

/// `name` begins with `TF_PREFIX`.
pub open spec fn is_forwarded(name: Seq<char>) -> bool {
    TF_PREFIX@.is_prefix_of(name)
}

/// The order of names: character by character from the front, by character
/// code, a name before each of its extensions.
pub open spec fn name_le(a: Seq<char>, b: Seq<char>) -> bool
    decreases a.len(),
{
    if a.len() == 0 {
        true
    } else if b.len() == 0 {
        false
    } else if a[0] == b[0] {
        name_le(a.drop_first(), b.drop_first())
    } else {
        a[0] < b[0]
    }
}

/// `a` does not come after `b` in the order of names.
pub fn name_le_text(a: &str, b: &str) -> (le: bool)
    ensures
        le == name_le(a@, b@),
{
    let mut rest = b.chars();
    proof {
        assert(a@.skip(0) == a@);
    }
    for c in it: a.chars()
        invariant
            it.seq() == a@,
            it.index() <= b@.len(),
            rest.remaining() == b@.skip(it.index()),
            name_le(a@, b@) == name_le(a@.skip(it.index()), b@.skip(it.index())),
    {
        let ghost i = it.index();
        match rest.next() {
            None => {
                return false;
            },
            Some(d) => {
                if c != d {
                    return c < d;
                }
                proof {
                    assert(a@.skip(i).drop_first() == a@.skip(i + 1));
                    assert(b@.skip(i).drop_first() == b@.skip(i + 1));
                }
            },
        }
    }
    true
}

/// The environment as contracts speak of it: each variable's name and value.
pub open spec fn bindings(vars: Seq<(String, String)>) -> Seq<(Seq<char>, Seq<char>)> {
    vars.map_values(|v: (String, String)| (v.0@, v.1@))
}

/// The variables whose names begin with `TF_PREFIX`, in the order given.
pub open spec fn forwarded(vars: Seq<(Seq<char>, Seq<char>)>) -> Seq<(Seq<char>, Seq<char>)> {
    vars.filter(|v: (Seq<char>, Seq<char>)| is_forwarded(v.0))
}

/// No variable stands before one whose name precedes its own.
pub open spec fn is_sorted(vars: Seq<(Seq<char>, Seq<char>)>) -> bool {
    forall|i: int, j: int| 0 <= i < j < vars.len() ==> name_le(#[trigger] vars[i].0, #[trigger] vars[j].0)
}

/// Where a variable called `name` goes among `sorted`: behind the last one
/// whose name does not come after it.
pub open spec fn slot(sorted: Seq<(Seq<char>, Seq<char>)>, name: Seq<char>) -> int
    decreases sorted.len(),
{
    if sorted.len() == 0 {
        0
    } else if name_le(sorted.last().0, name) {
        sorted.len() as int
    } else {
        slot(sorted.drop_last(), name)
    }
}

/// The variables by name. Variables of one name keep the order they came in.
pub open spec fn sort_by_name(vars: Seq<(Seq<char>, Seq<char>)>) -> Seq<(Seq<char>, Seq<char>)>
    decreases vars.len(),
{
    if vars.len() == 0 {
        vars
    } else {
        let sorted = sort_by_name(vars.drop_last());
        sorted.insert(slot(sorted, vars.last().0), vars.last())
    }
}

/// A variable as the shell takes it: name, `=`, value.
pub open spec fn assignment(v: (Seq<char>, Seq<char>)) -> Seq<char> {
    v.0 + seq!['='] + v.1
}

/// The assignments of the variables, in order.
pub open spec fn assignments(vars: Seq<(Seq<char>, Seq<char>)>) -> Seq<Seq<char>> {
    vars.map_values(|v: (Seq<char>, Seq<char>)| assignment(v))
}

/// The words of the command that every call of terraform starts with: the
/// assignments of the forwarded variables by name, the tool, and the flag that
/// names the project directory.
pub open spec fn base_words(vars: Seq<(Seq<char>, Seq<char>)>, chdir: Seq<char>) -> Seq<Seq<char>> {
    assignments(sort_by_name(forwarded(vars))) + seq!["terraform"@, "-chdir="@ + chdir]
}

/// The command that every call of terraform starts with: its words, one space
/// between each two.
pub open spec fn base_command_text(vars: Seq<(Seq<char>, Seq<char>)>, chdir: Seq<char>) -> Seq<char> {
    join(base_words(vars, chdir), seq![' '])
}

/// A docker command line: `docker`, a space, and the arguments with one space
/// between each two.
pub open spec fn docker_command_text(args: Seq<Seq<char>>) -> Seq<char> {
    "docker "@ + join(args, seq![' '])
}

/// Every name is in order with itself.
pub proof fn lemma_name_le_reflexive(a: Seq<char>)
    ensures
        name_le(a, a),
    decreases a.len(),
{
    if a.len() > 0 {
        lemma_name_le_reflexive(a.drop_first());
    }
}

/// Of two names one does not come after the other.
pub proof fn lemma_name_le_total(a: Seq<char>, b: Seq<char>)
    ensures
        name_le(a, b) || name_le(b, a),
    decreases a.len(),
{
    if a.len() > 0 && b.len() > 0 {
        if a[0] == b[0] {
            lemma_name_le_total(a.drop_first(), b.drop_first());
        }
    }
}

/// The order of names is transitive.
pub proof fn lemma_name_le_transitive(a: Seq<char>, b: Seq<char>, c: Seq<char>)
    requires
        name_le(a, b),
        name_le(b, c),
    ensures
        name_le(a, c),
    decreases a.len(),
{
    if a.len() > 0 && a[0] == b[0] && b[0] == c[0] {
        lemma_name_le_transitive(a.drop_first(), b.drop_first(), c.drop_first());
    }
}

/// Two names that do not come after each other are one name.
pub proof fn lemma_name_le_antisymmetric(a: Seq<char>, b: Seq<char>)
    requires
        name_le(a, b),
        name_le(b, a),
    ensures
        a == b,
    decreases a.len(),
{
    if a.len() > 0 {
        lemma_name_le_antisymmetric(a.drop_first(), b.drop_first());
        assert(a == seq![a[0]] + a.drop_first());
    }
}

/// The slot lies within the sequence; what stands from it on comes after the
/// name, and in a sorted sequence nothing before it does.
pub proof fn lemma_slot(sorted: Seq<(Seq<char>, Seq<char>)>, name: Seq<char>)
    ensures
        0 <= slot(sorted, name) <= sorted.len(),
        forall|k: int| slot(sorted, name) <= k < sorted.len() ==> !name_le(#[trigger] sorted[k].0, name),
        is_sorted(sorted) ==> forall|k: int|
            0 <= k < slot(sorted, name) ==> name_le(#[trigger] sorted[k].0, name),
    decreases sorted.len(),
{
    if sorted.len() > 0 {
        if name_le(sorted.last().0, name) {
            if is_sorted(sorted) {
                assert forall|k: int| 0 <= k < sorted.len() implies name_le(
                    #[trigger] sorted[k].0,
                    name,
                ) by {
                    if k < sorted.len() - 1 {
                        lemma_name_le_transitive(sorted[k].0, sorted.last().0, name);
                    }
                }
            }
        } else {
            lemma_slot(sorted.drop_last(), name);
            assert forall|k: int| slot(sorted, name) <= k < sorted.len() implies !name_le(
                #[trigger] sorted[k].0,
                name,
            ) by {
                if k < sorted.len() - 1 {
                    assert(sorted.drop_last()[k] == sorted[k]);
                }
            }
            if is_sorted(sorted) {
                assert forall|i: int, j: int| 0 <= i < j < sorted.len() - 1 implies name_le(
                    #[trigger] sorted.drop_last()[i].0,
                    #[trigger] sorted.drop_last()[j].0,
                ) by {}
                assert forall|k: int| 0 <= k < slot(sorted, name) implies name_le(
                    #[trigger] sorted[k].0,
                    name,
                ) by {
                    assert(sorted.drop_last()[k] == sorted[k]);
                }
            }
        }
    }
}

/// A variable put into its slot leaves a sorted sequence sorted.
pub proof fn lemma_insert_sorted(sorted: Seq<(Seq<char>, Seq<char>)>, v: (Seq<char>, Seq<char>))
    requires
        is_sorted(sorted),
    ensures
        is_sorted(sorted.insert(slot(sorted, v.0), v)),
{
    let at = slot(sorted, v.0);
    let after = sorted.insert(at, v);
    lemma_slot(sorted, v.0);
    assert forall|i: int, j: int| 0 <= i < j < after.len() implies name_le(
        #[trigger] after[i].0,
        #[trigger] after[j].0,
    ) by {
        if i == at {
            lemma_name_le_total(sorted[j - 1].0, v.0);
        }
    }
}

/// Sorting leaves the variables in the order of their names.
pub proof fn lemma_sort_is_sorted(vars: Seq<(Seq<char>, Seq<char>)>)
    ensures
        is_sorted(sort_by_name(vars)),
        sort_by_name(vars).len() == vars.len(),
    decreases vars.len(),
{
    if vars.len() > 0 {
        let sorted = sort_by_name(vars.drop_last());
        lemma_sort_is_sorted(vars.drop_last());
        lemma_slot(sorted, vars.last().0);
        lemma_insert_sorted(sorted, vars.last());
    }
}

/// Sorting drops no variable and adds none: each stands in the result as often
/// as it was given.
pub proof fn lemma_sort_permutes(vars: Seq<(Seq<char>, Seq<char>)>)
    ensures
        sort_by_name(vars).to_multiset() == vars.to_multiset(),
    decreases vars.len(),
{
    broadcast use vstd::seq_lib::group_to_multiset_ensures;

    if vars.len() > 0 {
        lemma_sort_permutes(vars.drop_last());
        lemma_slot(sort_by_name(vars.drop_last()), vars.last().0);
        assert(vars.drop_last().push(vars.last()) == vars);
    }
}

/// What one more variable at the end does to the variables that are forwarded.
pub proof fn lemma_forwarded_push(vars: Seq<(Seq<char>, Seq<char>)>, v: (Seq<char>, Seq<char>))
    ensures
        forwarded(vars.push(v)) == (if is_forwarded(v.0) {
            forwarded(vars).push(v)
        } else {
            forwarded(vars)
        }),
{
    reveal(Seq::filter);
    assert(vars.push(v).drop_last() == vars);
}

/// Where a variable called `name` goes among `sorted`.
pub fn slot_of(sorted: &Vec<(String, String)>, name: &str) -> (at: usize)
    ensures
        at == slot(bindings(sorted@), name@),
{
    let ghost all = bindings(sorted@);
    let mut at: usize = sorted.len();
    let mut found = false;
    proof {
        assert(all.take(at as int) == all);
    }
    while at > 0 && !found
        invariant
            at <= sorted.len(),
            all == bindings(sorted@),
            found ==> at > 0,
            slot(all, name@) == if found {
                at as int
            } else {
                slot(all.take(at as int), name@)
            },
        decreases at - if found { 1int } else { 0int },
    {
        proof {
            assert(all.take(at as int).drop_last() == all.take(at - 1));
        }
        if name_le_text(sorted[at - 1].0.as_str(), name) {
            found = true;
        } else {
            at -= 1;
        }
    }
    at
}

/// The variables of `vars` that are forwarded, by name.
pub fn forwarded_by_name(vars: &Vec<(String, String)>) -> (kept: Vec<(String, String)>)
    ensures
        bindings(kept@) == sort_by_name(forwarded(bindings(vars@))),
{
    let mut kept: Vec<(String, String)> = Vec::new();
    let mut i: usize = 0;
    proof {
        reveal(Seq::filter);
    }
    while i < vars.len()
        invariant
            i <= vars.len(),
            bindings(kept@) == sort_by_name(forwarded(bindings(vars@.take(i as int)))),
        decreases vars.len() - i,
    {
        let ghost before = bindings(vars@.take(i as int));
        let ghost v = (vars@[i as int].0@, vars@[i as int].1@);
        proof {
            assert(bindings(vars@.take(i + 1)) == before.push(v));
            lemma_forwarded_push(before, v);
            assert(forwarded(before).push(v).drop_last() == forwarded(before));
        }
        if starts_with(vars[i].0.as_str(), TF_PREFIX) {
            let at = slot_of(&kept, vars[i].0.as_str());
            proof {
                lemma_slot(bindings(kept@), v.0);
            }
            kept.insert(at, (vars[i].0.clone(), vars[i].1.clone()));
        }
        i += 1;
    }
    proof {
        assert(vars@.take(vars@.len() as int) == vars@);
    }
    kept
}

/// The command that every call of terraform starts with, from the options and
/// the environment of the process.
pub fn base_command(args: &Opt, vars: &Vec<(String, String)>) -> (base: String)
    ensures
        base@ == base_command_text(bindings(vars@), args.chdir_text()),
{
    let kept = forwarded_by_name(vars);
    let mut words: Vec<String> = Vec::new();
    let mut i: usize = 0;
    while i < kept.len()
        invariant
            i <= kept.len(),
            texts(words@) == assignments(bindings(kept@).take(i as int)),
        decreases kept.len() - i,
    {
        let mut word = kept[i].0.clone();
        word.push('=');
        word.append(kept[i].1.as_str());
        proof {
            let v = bindings(kept@)[i as int];
            assert(bindings(kept@).take(i + 1) == bindings(kept@).take(i as int).push(v));
            assert(word@ == assignment(v));
            assert(assignments(bindings(kept@).take(i as int).push(v)) == assignments(
                bindings(kept@).take(i as int),
            ).push(assignment(v)));
        }
        words.push(word);
        i += 1;
    }
    proof {
        assert(bindings(kept@).take(kept@.len() as int) == bindings(kept@));
    }
    let ghost assigned = texts(words@);
    words.push(String::from_str("terraform"));
    let mut flag = String::from_str("-chdir=");
    let dir = args.chdir();
    flag.append(dir.as_str());
    words.push(flag);
    proof {
        reveal_strlit(" ");
        assert(" "@ == seq![' ']);
        assert(texts(words@) == assigned + seq!["terraform"@, "-chdir="@ + args.chdir_text()]);
    }
    let refs = as_strs(&words);
    join_text(refs.as_slice(), " ")
}

/// Docker's command line.
pub struct Docker;

impl Docker {
    /// The command line that runs docker with `args`.
    pub fn command(args: &[&str]) -> (line: String)
        ensures
            line@ == docker_command_text(texts(args@)),
    {
        proof {
            reveal_strlit(" ");
            assert(" "@ == seq![' ']);
        }
        let mut line = String::from_str("docker ");
        let joined = join_text(args, " ");
        line.append(joined.as_str());
        line
    }
}

} // verus!
