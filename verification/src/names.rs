//! Sets of names, kept in order.

use vstd::prelude::*;
use vstd::string::*;

use crate::config::texts;
use crate::text::same_text;

verus! {

/// True when a text comes before another one in the order of their characters.
pub open spec fn before(a: Seq<char>, b: Seq<char>) -> bool
    decreases a.len(),
{
    if b.len() == 0 {
        false
    } else if a.len() == 0 {
        true
    } else {
        a[0] < b[0] || a[0] == b[0] && before(a.drop_first(), b.drop_first())
    }
}

/// True of a list in which each name comes before all later ones, so that none
/// occurs twice.
pub open spec fn ascending(names: Seq<Seq<char>>) -> bool {
    forall|i: int, j: int|
        0 <= i < j < names.len() ==> before(#[trigger] names[i], #[trigger] names[j])
}

/// No text comes before itself.
pub proof fn nothing_comes_before_itself(a: Seq<char>)
    ensures
        !before(a, a),
    decreases a.len(),
{
    if a.len() > 0 {
        nothing_comes_before_itself(a.drop_first());
    }
}

/// What comes before something comes before all that this comes before.
pub proof fn the_order_is_transitive(a: Seq<char>, b: Seq<char>, c: Seq<char>)
    requires
        before(a, b),
        before(b, c),
    ensures
        before(a, c),
    decreases a.len(),
{
    if a.len() > 0 && a[0] == b[0] && b[0] == c[0] {
        the_order_is_transitive(a.drop_first(), b.drop_first(), c.drop_first());
    }
}

/// Of two different texts, one comes before the other.
pub proof fn the_order_is_total(a: Seq<char>, b: Seq<char>)
    ensures
        a == b || before(a, b) || before(b, a),
    decreases a.len(),
{
    if a.len() > 0 && b.len() > 0 && a[0] == b[0] {
        the_order_is_total(a.drop_first(), b.drop_first());
        if a.drop_first() == b.drop_first() {
            assert(a =~= seq![a[0]] + a.drop_first());
            assert(b =~= seq![b[0]] + b.drop_first());
        }
    } else if a.len() == 0 && b.len() == 0 {
        assert(a =~= b);
    }
}

/// Two ascending lists of the same names are the same list.
pub proof fn the_order_decides_the_list(a: Seq<Seq<char>>, b: Seq<Seq<char>>)
    requires
        ascending(a),
        ascending(b),
        forall|name: Seq<char>| a.contains(name) <==> b.contains(name),
    ensures
        a == b,
    decreases a.len(),
{
    if a.len() == 0 {
        if b.len() > 0 {
            assert(b.contains(b[0]));
        }
        assert(a =~= b);
    } else {
        assert(a.contains(a[0]));
        assert(b.contains(a[0]));
        let i = choose|i: int| 0 <= i < b.len() && b[i] == a[0];
        assert(b.contains(b[0]));
        assert(a.contains(b[0]));
        let j = choose|j: int| 0 <= j < a.len() && a[j] == b[0];
        if i > 0 && j > 0 {
            assert(before(b[0], b[i]) && before(a[0], a[j]));
            the_order_is_transitive(a[0], b[0], a[0]);
            nothing_comes_before_itself(a[0]);
        }
        assert(a[0] == b[0]);
        let (rest_a, rest_b) = (a.drop_first(), b.drop_first());
        assert forall|name: Seq<char>| rest_a.contains(name) <==> rest_b.contains(name) by {
            lemma_rest(a, name);
            lemma_rest(b, name);
        }
        assert forall|k: int, l: int| 0 <= k < l < rest_a.len() implies before(
            #[trigger] rest_a[k],
            #[trigger] rest_a[l],
        ) by {
            assert(before(a[k + 1], a[l + 1]));
        }
        assert forall|k: int, l: int| 0 <= k < l < rest_b.len() implies before(
            #[trigger] rest_b[k],
            #[trigger] rest_b[l],
        ) by {
            assert(before(b[k + 1], b[l + 1]));
        }
        the_order_decides_the_list(rest_a, rest_b);
        assert(a =~= seq![a[0]] + rest_a);
        assert(b =~= seq![b[0]] + rest_b);
    }
}

proof fn lemma_rest(names: Seq<Seq<char>>, name: Seq<char>)
    requires
        ascending(names),
        names.len() > 0,
    ensures
        names.drop_first().contains(name) <==> names.contains(name) && name != names[0],
{
    let rest = names.drop_first();
    if rest.contains(name) {
        let k = choose|k: int| 0 <= k < rest.len() && rest[k] == name;
        assert(names[k + 1] == name);
        assert(before(names[0], names[k + 1]));
        nothing_comes_before_itself(name);
    }
    if names.contains(name) && name != names[0] {
        let k = choose|k: int| 0 <= k < names.len() && names[k] == name;
        assert(rest[k - 1] == name);
    }
}

fn comes_before(a: &str, b: &str) -> (yes: bool)
    ensures
        yes == before(a@, b@),
{
    let a_count: usize = a.unicode_len();
    let b_count: usize = b.unicode_len();
    let mut at: usize = 0;
    assert(a@.skip(0) =~= a@ && b@.skip(0) =~= b@);
    while at < a_count && at < b_count
        invariant
            a_count == a@.len(),
            b_count == b@.len(),
            0 <= at <= a_count,
            at <= b_count,
            before(a@, b@) == before(a@.skip(at as int), b@.skip(at as int)),
        decreases a_count - at,
    {
        let x = a.get_char(at);
        let y = b.get_char(at);
        assert(a@.skip(at as int).drop_first() =~= a@.skip(at as int + 1));
        assert(b@.skip(at as int).drop_first() =~= b@.skip(at as int + 1));
        if x != y {
            return x < y;
        }
        at = at + 1;
    }
    at < b_count
}

proof fn lemma_insert(names: Seq<Seq<char>>, at: int, name: Seq<char>)
    requires
        ascending(names),
        0 <= at <= names.len(),
        forall|i: int| 0 <= i < at ==> before(#[trigger] names[i], name),
        at < names.len() ==> !before(names[at], name) && names[at] != name,
    ensures
        ascending(names.insert(at, name)),
{
    let more = names.insert(at, name);
    assert forall|i: int, j: int| 0 <= i < j < more.len() implies before(
        #[trigger] more[i],
        #[trigger] more[j],
    ) by {
        if i == at {
            the_order_is_total(name, names[at]);
            if j > at + 1 {
                assert(before(names[at], names[j - 1]));
                the_order_is_transitive(name, names[at], names[j - 1]);
            }
        } else if j == at {
            assert(more[i] == names[i]);
        } else {
            let k = if i < at {
                i
            } else {
                i - 1
            };
            let l = if j < at {
                j
            } else {
                j - 1
            };
            assert(before(names[k], names[l]));
        }
    }
}

/// A set of names, in order.
#[derive(Debug)]
pub struct Names {
    list: Vec<String>,
}

impl View for Names {
    type V = Seq<Seq<char>>;

    closed spec fn view(&self) -> Seq<Seq<char>> {
        texts(self.list@)
    }
}

impl Names {
    /// The names are in order, and none occurs twice.
    #[verifier::type_invariant]
    spec fn in_order(self) -> bool {
        ascending(texts(self.list@))
    }

    /// No names.
    pub fn new() -> (names: Self)
        ensures
            names@ == Seq::<Seq<char>>::empty(),
    {
        let list: Vec<String> = Vec::new();
        assert(texts(list@) =~= Seq::<Seq<char>>::empty());
        Names { list }
    }

    /// The set of the given names.
    pub fn of(given: Vec<String>) -> (names: Self)
        ensures
            ascending(names@),
            forall|name: Seq<char>| names@.contains(name) <==> texts(given@).contains(name),
    {
        let mut list: Vec<String> = Vec::new();
        let mut index: usize = 0;
        assert(texts(list@) =~= Seq::<Seq<char>>::empty());
        while index < given.len()
            invariant
                0 <= index <= given@.len(),
                ascending(texts(list@)),
                forall|name: Seq<char>|
                    texts(list@).contains(name) <==> texts(given@).take(index as int).contains(
                        name,
                    ),
            decreases given.len() - index,
        {
            let ghost seen = texts(given@).take(index as int);
            let ghost held = texts(list@);
            let name = given[index].as_str();
            let mut at: usize = 0;
            while at < list.len() && comes_before(list[at].as_str(), name)
                invariant
                    0 <= at <= list@.len(),
                    held == texts(list@),
                    forall|i: int| 0 <= i < at ==> before(#[trigger] held[i], name@),
                decreases list.len() - at,
            {
                assert(held[at as int] == list@[at as int]@);
                at = at + 1;
            }
            let known = at < list.len() && same_text(list[at].as_str(), name);
            if !known {
                proof {
                    if at < held.len() {
                        assert(held[at as int] == list@[at as int]@);
                    }
                    lemma_insert(held, at as int, name@);
                }
                list.insert(at, name.to_owned());
                assert(texts(list@) =~= held.insert(at as int, name@));
            } else {
                assert(held[at as int] == name@);
            }
            proof {
                lemma_one_more(held, at as int, name@, texts(list@), known);
                let more = texts(given@).take(index as int + 1);
                assert(more =~= seen.push(name@));
                assert forall|text: Seq<char>|
                    texts(list@).contains(text) <==> more.contains(text) by {
                    lemma_push_contains(seen, name@, text);
                }
            }
            index = index + 1;
        }
        assert(texts(given@).take(index as int) =~= texts(given@));
        Names { list }
    }

    /// The names, in order.
    pub fn as_slice(&self) -> (list: &[String])
        ensures
            texts(list@) == self@,
            ascending(self@),
    {
        proof {
            use_type_invariant(self);
        }
        self.list.as_slice()
    }
}

proof fn lemma_push_contains(names: Seq<Seq<char>>, last: Seq<char>, name: Seq<char>)
    ensures
        names.push(last).contains(name) <==> names.contains(name) || name == last,
{
    let more = names.push(last);
    if names.contains(name) {
        let i = choose|i: int| 0 <= i < names.len() && names[i] == name;
        assert(more[i] == name);
    }
    assert(more[names.len() as int] == last);
}

proof fn lemma_one_more(
    names: Seq<Seq<char>>,
    at: int,
    new: Seq<char>,
    more: Seq<Seq<char>>,
    known: bool,
)
    requires
        0 <= at <= names.len(),
        known ==> at < names.len() && names[at] == new && more == names,
        !known ==> more == names.insert(at, new),
    ensures
        forall|name: Seq<char>| more.contains(name) <==> names.contains(name) || name == new,
{
    assert forall|name: Seq<char>| more.contains(name) <==> names.contains(name) || name
        == new by {
        if !known {
            assert(more[at] == new);
            if names.contains(name) {
                let i = choose|i: int| 0 <= i < names.len() && names[i] == name;
                assert(more[if i < at {
                    i
                } else {
                    i + 1
                }] == name);
            }
            if more.contains(name) {
                let i = choose|i: int| 0 <= i < more.len() && more[i] == name;
                if i < at {
                    assert(names[i] == name);
                } else if i > at {
                    assert(names[i - 1] == name);
                }
            }
        } else {
            assert(names.contains(new));
        }
    }
}

impl Default for Names {
    fn default() -> (names: Self)
        ensures
            names@ == Seq::<Seq<char>>::empty(),
    {
        Names::new()
    }
}

impl Clone for Names {
    fn clone(&self) -> (copy: Self)
        ensures
            copy@ == self@,
    {
        proof {
            use_type_invariant(self);
        }
        let mut list: Vec<String> = Vec::new();
        let mut index: usize = 0;
        let ghost all = texts(self.list@);
        assert(texts(list@) =~= all.take(0));
        while index < self.list.len()
            invariant
                0 <= index <= self.list@.len(),
                all == texts(self.list@),
                texts(list@) == all.take(index as int),
            decreases self.list.len() - index,
        {
            let ghost held = texts(list@);
            list.push(self.list[index].as_str().to_owned());
            index = index + 1;
            assert(texts(list@) =~= held.push(all[index - 1]));
            assert(texts(list@) =~= all.take(index as int));
        }
        assert(all.take(index as int) =~= all);
        Names { list }
    }
}

/// Two texts are ordered by the first character in which they differ, and where one
/// runs out before that, it comes first.
pub proof fn the_first_difference_decides(a: Seq<char>, b: Seq<char>, at: int)
    requires
        0 <= at <= a.len(),
        at < b.len(),
        forall|i: int| 0 <= i < at ==> #[trigger] a[i] == b[i],
    ensures
        at == a.len() ==> before(a, b) && !before(b, a),
        at < a.len() && a[at] < b[at] ==> before(a, b) && !before(b, a),
    decreases at,
{
    if at > 0 {
        assert(a[0] == b[0]);
        let (rest_a, rest_b) = (a.drop_first(), b.drop_first());
        assert forall|i: int| 0 <= i < at - 1 implies #[trigger] rest_a[i] == rest_b[i] by {
            assert(a[i + 1] == b[i + 1]);
        }
        the_first_difference_decides(rest_a, rest_b, at - 1);
    }
}

/// In a list in order each name comes before all later ones, and a list in which each
/// comes before the next is in order.
pub proof fn a_list_is_in_order_step_by_step(names: Seq<Seq<char>>)
    ensures
        ascending(names) <==> forall|i: int|
            0 < i < names.len() ==> before(names[i - 1], #[trigger] names[i]),
{
    if forall|i: int| 0 < i < names.len() ==> before(names[i - 1], #[trigger] names[i]) {
        assert forall|i: int, j: int| 0 <= i < j < names.len() implies before(
            #[trigger] names[i],
            #[trigger] names[j],
        ) by {
            lemma_steps(names, i, j);
        }
    }
    if ascending(names) {
        assert forall|i: int| 0 < i < names.len() implies before(
            names[i - 1],
            #[trigger] names[i],
        ) by {}
    }
}

proof fn lemma_steps(names: Seq<Seq<char>>, i: int, j: int)
    requires
        forall|k: int| 0 < k < names.len() ==> before(names[k - 1], #[trigger] names[k]),
        0 <= i < j < names.len(),
    ensures
        before(names[i], names[j]),
    decreases j - i,
{
    assert(before(names[j - 1], names[j]));
    if i < j - 1 {
        lemma_steps(names, i, j - 1);
        the_order_is_transitive(names[i], names[j - 1], names[j]);
    }
}

} // verus!
