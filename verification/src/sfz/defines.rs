//! Variables that an SFZ file defines, and their use in the texts after them.

use crate::text::{chars_of, same_text, stands_at, word_at};
use vstd::prelude::*;
use vstd::string::StringExecFns;

verus! {

/// The variables that are defined, each with the text that it stands for.
pub type Defines = Vec<(String, String)>;

/// Of the first `n` variables, the longest one with which `s` begins from `at`.
/// A variable without a name is never used.
pub open spec fn best_define(
    defines: Seq<(Seq<char>, Seq<char>)>,
    n: int,
    s: Seq<char>,
    at: int,
) -> Option<int>
    decreases n,
{
    if n <= 0 {
        None
    } else {
        let earlier = best_define(defines, n - 1, s, at);
        let name = defines[n - 1].0;
        if name.len() > 0 && stands_at(s, name, at) && (earlier is None
            || defines[earlier->0].0.len() < name.len()) {
            Some(n - 1)
        } else {
            earlier
        }
    }
}

/// `s` from position `at` on with the variables replaced: at each `$` the longest
/// variable that fits, and where none does, the `$` itself.
pub open spec fn substituted(
    defines: Seq<(Seq<char>, Seq<char>)>,
    s: Seq<char>,
    at: int,
) -> Seq<char>
    decreases s.len() - at,
{
    if !(0 <= at < s.len()) {
        Seq::empty()
    } else {
        let best = best_define(defines, defines.len() as int, s, at);
        if s[at] == '$' && best is Some && 0 < defines[best->0].0.len() <= s.len() - at {
            defines[best->0].1 + substituted(defines, s, at + defines[best->0].0.len())
        } else {
            seq![s[at]] + substituted(defines, s, at + 1)
        }
    }
}

proof fn best_define_bounds(
    defines: Seq<(Seq<char>, Seq<char>)>,
    n: int,
    s: Seq<char>,
    at: int,
)
    requires
        n <= defines.len(),
    ensures
        best_define(defines, n, s, at) matches Some(i) ==> 0 <= i < n && defines[i].0.len() > 0
            && stands_at(s, defines[i].0, at),
    decreases n,
{
    if n > 0 {
        best_define_bounds(defines, n - 1, s, at);
    }
}

fn find_define(defines: &Defines, chars: &Vec<char>, at: usize) -> (r: Option<usize>)
    ensures
        r is Some <==> best_define(defines.deep_view(), defines.len() as int, chars@, at as int) is Some,
        r matches Some(i) ==> i < defines.len() && best_define(
            defines.deep_view(),
            defines.len() as int,
            chars@,
            at as int,
        ) == Some(i as int),
{
    let ghost all = defines.deep_view();
    let mut best: Option<usize> = None;
    let mut width: usize = 0;
    let mut n: usize = 0;
    while n < defines.len()
        invariant
            n <= defines.len(),
            all == defines.deep_view(),
            best is Some <==> best_define(all, n as int, chars@, at as int) is Some,
            best matches Some(i) ==> i < n && best_define(all, n as int, chars@, at as int) == Some(
                i as int,
            ) && width == all[i as int].0.len(),
        decreases defines.len() - n,
    {
        let name = chars_of(&defines[n].0);
        assert(all[n as int].0 == name@);
        if name.len() > 0 && word_at(chars, &name, at) && (best.is_none() || width < name.len()) {
            best = Some(n);
            width = name.len();
        }
        n = n + 1;
    }
    best
}

/// A text with the variables replaced.
pub fn apply_defines(text: &str, defines: &Defines) -> (r: String)
    ensures
        r@ == substituted(defines.deep_view(), text@, 0),
{
    let chars = chars_of(text);
    let ghost all = defines.deep_view();
    let mut out = String::new();
    let mut at: usize = 0;
    while at < chars.len()
        invariant
            at <= chars.len(),
            all == defines.deep_view(),
            chars@ == text@,
            substituted(all, text@, 0) == out@ + substituted(all, text@, at as int),
        decreases chars.len() - at,
    {
        let ghost before = out@;
        if chars[at] == '$' {
            if let Some(i) = find_define(defines, &chars, at) {
                proof {
                    best_define_bounds(all, all.len() as int, chars@, at as int);
                }
                let width = chars_of(&defines[i].0).len();
                out.append(&defines[i].1);
                assert(before + (all[i as int].1 + substituted(all, text@, at + width)) =~= out@
                    + substituted(all, text@, at + width));
                at = at + width;
                continue;
            }
        }
        out.push(chars[at]);
        assert(before + (seq![text@[at as int]] + substituted(all, text@, at + 1)) =~= out@
            + substituted(all, text@, at + 1));
        at = at + 1;
    }
    assert(out@ + Seq::empty() =~= out@);
    out
}

/// A text without variables is left as it is.
pub proof fn plain_text_is_unchanged(defines: Seq<(Seq<char>, Seq<char>)>, s: Seq<char>)
    requires
        !s.contains('$'),
    ensures
        substituted(defines, s, 0) == s,
{
    plain_tail_is_unchanged(defines, s, 0);
    assert(s.skip(0) =~= s);
}

proof fn plain_tail_is_unchanged(defines: Seq<(Seq<char>, Seq<char>)>, s: Seq<char>, at: int)
    requires
        !s.contains('$'),
        0 <= at <= s.len(),
    ensures
        substituted(defines, s, at) == s.skip(at),
    decreases s.len() - at,
{
    if at < s.len() {
        plain_tail_is_unchanged(defines, s, at + 1);
        assert(s[at] != '$');
        assert(s.skip(at) =~= seq![s[at]] + s.skip(at + 1));
    } else {
        assert(s.skip(at) =~= Seq::empty());
    }
}

/// The variables with `name` standing for `value`: in its place where it is
/// defined already, else at the end.
pub open spec fn defined(
    defines: Seq<(Seq<char>, Seq<char>)>,
    name: Seq<char>,
    value: Seq<char>,
) -> Seq<(Seq<char>, Seq<char>)>
    decreases defines.len(),
{
    if defines.len() == 0 {
        seq![(name, value)]
    } else if defines[0].0 == name {
        seq![(name, value)] + defines.drop_first()
    } else {
        seq![defines[0]] + defined(defines.drop_first(), name, value)
    }
}

proof fn defined_at(
    defines: Seq<(Seq<char>, Seq<char>)>,
    name: Seq<char>,
    value: Seq<char>,
    at: int,
)
    requires
        0 <= at <= defines.len(),
        forall|j: int| 0 <= j < at ==> defines[j].0 != name,
        at < defines.len() ==> defines[at].0 == name,
    ensures
        at < defines.len() ==> defined(defines, name, value) == defines.update(at, (name, value)),
        at == defines.len() ==> defined(defines, name, value) == defines.push((name, value)),
    decreases defines.len(),
{
    let rest = defines.drop_first();
    if at > 0 {
        assert forall|j: int| 0 <= j < at - 1 implies rest[j].0 != name by {
            assert(rest[j] == defines[j + 1]);
        }
        defined_at(rest, name, value, at - 1);
        assert(defines[0].0 != name);
        if at < defines.len() {
            assert(seq![defines[0]] + rest.update(at - 1, (name, value)) =~= defines.update(
                at,
                (name, value),
            ));
        } else {
            assert(seq![defines[0]] + rest.push((name, value)) =~= defines.push((name, value)));
        }
    } else if defines.len() > 0 {
        assert(seq![(name, value)] + rest =~= defines.update(0, (name, value)));
    } else {
        assert(seq![(name, value)] =~= defines.push((name, value)));
    }
}

/// Lets a variable stand for a text.
pub fn define(defines: &mut Defines, name: String, value: String)
    ensures
        final(defines).deep_view() == defined(old(defines).deep_view(), name@, value@),
{
    let ghost before = defines.deep_view();
    let mut i: usize = 0;
    while i < defines.len()
        invariant
            i <= defines.len(),
            before == old(defines).deep_view(),
            defines.deep_view() == before,
            forall|j: int| 0 <= j < i ==> before[j].0 != name@,
        decreases defines.len() - i,
    {
        assert(before[i as int].0 == defines@[i as int].0@);
        if same_text(&defines[i].0, &name) {
            proof {
                defined_at(before, name@, value@, i as int);
            }
            defines.set(i, (name, value));
            assert(defines.deep_view() =~= before.update(i as int, (name@, value@)));
            return;
        }
        i = i + 1;
    }
    proof {
        defined_at(before, name@, value@, i as int);
    }
    defines.push((name, value));
    assert(defines.deep_view() =~= before.push((name@, value@)));
}

/// Of the variables with which a text goes on, the longest one counts, and the earliest among
/// equals; where there is none, nothing is replaced.
pub proof fn longest_variable_counts(
    defines: Seq<(Seq<char>, Seq<char>)>,
    n: int,
    s: Seq<char>,
    at: int,
)
    requires
        0 <= n <= defines.len(),
    ensures
        best_define(defines, n, s, at) matches Some(i) ==> {
            &&& 0 <= i < n
            &&& defines[i].0.len() > 0
            &&& stands_at(s, defines[i].0, at)
            &&& forall|j: int|
                0 <= j < n && stands_at(s, (#[trigger] defines[j]).0, at) ==> defines[j].0.len()
                    <= defines[i].0.len() && (j < i ==> defines[j].0.len() < defines[i].0.len())
        },
        best_define(defines, n, s, at) is None ==> forall|j: int|
            0 <= j < n ==> (#[trigger] defines[j]).0.len() == 0 || !stands_at(
                s,
                defines[j].0,
                at,
            ),
    decreases n,
{
    if n > 0 {
        longest_variable_counts(defines, n - 1, s, at);
        let name = defines[n - 1].0;
        if let Some(i) = best_define(defines, n, s, at) {
            assert forall|j: int|
                0 <= j < n && stands_at(
                    s,
                    (#[trigger] defines[j]).0,
                    at,
                ) implies defines[j].0.len() <= defines[i].0.len() && (j < i
                ==> defines[j].0.len() < defines[i].0.len()) by {
                if j < n - 1 && best_define(defines, n - 1, s, at) is None {
                    assert(defines[j].0.len() == 0);
                }
            }
        }
    }
}

/// A variable in a text is replaced by what it stands for, and the text goes on behind it; what
/// stands in front of the first `$` stays as it is.
pub proof fn variables_are_replaced(
    defines: Seq<(Seq<char>, Seq<char>)>,
    before: Seq<char>,
    i: int,
    after: Seq<char>,
)
    requires
        !before.contains('$'),
        0 <= i < defines.len(),
        defines[i].0.len() > 0,
        defines[i].0[0] == '$',
        forall|j: int|
            0 <= j < defines.len() && j != i ==> !stands_at(
                before + defines[i].0 + after,
                (#[trigger] defines[j]).0,
                before.len() as int,
            ) || defines[j].0.len() < defines[i].0.len(),
    ensures
        substituted(defines, before + defines[i].0 + after, 0) == before + defines[i].1
            + substituted(
            defines,
            before + defines[i].0 + after,
            (before.len() + defines[i].0.len()) as int,
        ),
{
    let name = defines[i].0;
    let s = before + name + after;
    let at = before.len() as int;
    text_in_front_stays(defines, s, 0, at);
    assert(s.subrange(at, at + name.len()) =~= name);
    assert(s[at] == '$') by {
        assert(s.subrange(at, at + name.len())[0] == s[at]);
    }
    longest_variable_counts(defines, defines.len() as int, s, at);
    let best = best_define(defines, defines.len() as int, s, at);
    assert(stands_at(s, defines[i].0, at));
    assert(best == Some(i)) by {
        let k = best->0;
        assert(stands_at(s, defines[k].0, at));
    }
    assert(s.subrange(0, at) =~= before);
    assert(s.subrange(0, at) + (defines[i].1 + substituted(defines, s, at + name.len())) =~= before
        + defines[i].1 + substituted(defines, s, at + name.len()));
}

proof fn text_in_front_stays(
    defines: Seq<(Seq<char>, Seq<char>)>,
    s: Seq<char>,
    from: int,
    to: int,
)
    requires
        0 <= from <= to <= s.len(),
        forall|k: int| from <= k < to ==> s[k] != '$',
    ensures
        substituted(defines, s, from) == s.subrange(from, to) + substituted(defines, s, to),
    decreases to - from,
{
    if from < to {
        assert(s[from] != '$');
        text_in_front_stays(defines, s, from + 1, to);
        assert(s.subrange(from, to) =~= seq![s[from]] + s.subrange(from + 1, to));
        assert(seq![s[from]] + (s.subrange(from + 1, to) + substituted(defines, s, to))
            =~= s.subrange(from, to) + substituted(defines, s, to));
    } else {
        assert(s.subrange(from, to) + substituted(defines, s, to) =~= substituted(defines, s, to));
    }
}

/// The last definition of a variable counts, and no other variable is touched.
pub proof fn last_definition_counts(
    defines: Seq<(Seq<char>, Seq<char>)>,
    name: Seq<char>,
    value: Seq<char>,
    at: int,
)
    requires
        0 <= at <= defines.len(),
        forall|j: int| 0 <= j < at ==> (#[trigger] defines[j]).0 != name,
        at < defines.len() ==> defines[at].0 == name,
    ensures
        ({
            let now = defined(defines, name, value);
            &&& now[at] == (name, value)
            &&& at < defines.len() ==> now.len() == defines.len()
            &&& at == defines.len() ==> now.len() == defines.len() + 1
            &&& forall|j: int| 0 <= j < defines.len() && j != at ==> #[trigger] now[j] == defines[j]
        }),
{
    defined_at(defines, name, value, at);
}

} // verus!
