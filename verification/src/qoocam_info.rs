//! The `INFO` text of QooCam metadata: white-space separated
//! `key=value` words.

use vstd::prelude::*;
use crate::text::{chars_eq, is_whitespace, str_chars, string_from_chars, unicode_whitespace};

verus! {

/// The non-empty pieces of `s` between white space; `cur` is the piece
/// begun before `s`.
pub open spec fn words(s: Seq<char>, cur: Seq<char>) -> Seq<Seq<char>>
    decreases s.len(),
{
    if s.len() == 0 {
        if cur.len() > 0 {
            seq![cur]
        } else {
            Seq::empty()
        }
    } else if unicode_whitespace(s[0]) {
        (if cur.len() > 0 {
            seq![cur]
        } else {
            Seq::empty()
        }) + words(s.drop_first(), Seq::empty())
    } else {
        words(s.drop_first(), cur.push(s[0]))
    }
}

/// `w` holds exactly one `=`, at `i`.
pub open spec fn sole_eq_at(w: Seq<char>, i: int) -> bool {
    0 <= i < w.len() && w[i] == '=' && forall|j: int| 0 <= j < w.len() && j != i ==> w[j] != '='
}

/// The key and value of a `key=value` word: the parts around its only `=`.
pub open spec fn info_pair(w: Seq<char>) -> Option<(Seq<char>, Seq<char>)> {
    if exists|i: int| sole_eq_at(w, i) {
        let i = choose|i: int| sole_eq_at(w, i);
        Some((w.subrange(0, i), w.subrange(i + 1, w.len() as int)))
    } else {
        None
    }
}

/// The value of `key` in the words `ws` after `acc`: that of the last
/// `key=value` word with that key.
pub open spec fn last_value(ws: Seq<Seq<char>>, key: Seq<char>, acc: Option<Seq<char>>) -> Option<Seq<char>>
    decreases ws.len(),
{
    if ws.len() == 0 {
        acc
    } else {
        last_value(
            ws.drop_first(),
            key,
            match info_pair(ws[0]) {
                Some((k, v)) => if k == key {
                    Some(v)
                } else {
                    acc
                },
                None => acc,
            },
        )
    }
}

/// The value of `key` in an `INFO` text of white-space separated
/// `key=value` words; the last word wins.
pub open spec fn info_value_spec(info: Seq<char>, key: Seq<char>) -> Option<Seq<char>> {
    last_value(words(info, Seq::empty()), key, None)
}

/// The characters of an optional word.
pub open spec fn opt_chars(o: Option<Vec<char>>) -> Option<Seq<char>> {
    match o {
        Some(v) => Some(v@),
        None => None,
    }
}

/// `acc` after the word `w` (see `last_value`).
fn take_word(w: &[char], key: &[char], acc: Option<Vec<char>>) -> (r: Option<Vec<char>>)
    ensures
        opt_chars(r) == last_value(
            seq![w@],
            key@,
            opt_chars(acc),
        ),
{
    proof {
        reveal_with_fuel(last_value, 2);
    }
    assert(seq![w@].drop_first() =~= Seq::<Seq<char>>::empty());
    let mut at: usize = 0;
    let mut count: usize = 0;
    let mut i: usize = 0;
    while i < w.len()
        invariant
            i <= w.len(),
            count <= i,
            count == 0 ==> forall|j: int| 0 <= j < i ==> w@[j] != '=',
            count == 1 ==> at < i && w@[at as int] == '=' && forall|j: int| 0 <= j < i && j != at ==> w@[j] != '=',
            count >= 2 ==> exists|j: int, k: int| 0 <= j < k < i && w@[j] == '=' && w@[k] == '=',
        decreases w.len() - i,
    {
        if w[i] == '=' {
            if count == 0 {
                at = i;
            } else if count == 1 {
                assert(w@[at as int] == '=' && w@[i as int] == '=');
            }
            if count < 2 {
                count = count + 1;
            }
        }
        i = i + 1;
    }
    if count != 1 {
        proof {
            if exists|x: int| sole_eq_at(w@, x) {
                let x = choose|x: int| sole_eq_at(w@, x);
                if count >= 2 {
                    let (j, k) = choose|j: int, k: int| 0 <= j < k < w.len() && w@[j] == '=' && w@[k] == '=';
                    assert(j == x || k == x);
                }
            }
        }
        return acc;
    }
    assert(sole_eq_at(w@, at as int));
    proof {
        let x = choose|x: int| sole_eq_at(w@, x);
        assert(x == at);
    }
    let k = &w[0..at];
    assert(k@ =~= w@.subrange(0, at as int));
    if chars_eq(k, key) {
        let v = &w[at + 1..w.len()];
        let mut out: Vec<char> = Vec::new();
        let mut j: usize = 0;
        while j < v.len()
            invariant
                j <= v.len(),
                out@ == v@.subrange(0, j as int),
            decreases v.len() - j,
        {
            out.push(v[j]);
            assert(out@ =~= v@.subrange(0, j + 1));
            j = j + 1;
        }
        assert(out@ =~= w@.subrange(at + 1, w@.len() as int));
        Some(out)
    } else {
        acc
    }
}

proof fn lemma_last_value_cat(a: Seq<Seq<char>>, b: Seq<Seq<char>>, key: Seq<char>, acc: Option<Seq<char>>)
    ensures
        last_value(a + b, key, acc) == last_value(b, key, last_value(a, key, acc)),
    decreases a.len(),
{
    if a.len() == 0 {
        assert(a + b =~= b);
    } else {
        let step = match info_pair(a[0]) {
            Some((k, v)) => if k == key {
                Some(v)
            } else {
                acc
            },
            None => acc,
        };
        assert((a + b).drop_first() =~= a.drop_first() + b);
        assert((a + b)[0] == a[0]);
        lemma_last_value_cat(a.drop_first(), b, key, step);
    }
}

/// The value of `key` in an `INFO` text (see `info_value_spec`).
pub fn info_value(info: &str, key: &str) -> (r: Option<String>)
    ensures
        match r {
            Some(v) => Some(v@),
            None => None,
        } == info_value_spec(info@, key@),
{
    let cs = str_chars(info);
    let kc = str_chars(key);
    let mut acc: Option<Vec<char>> = None;
    let mut cur: Vec<char> = Vec::new();
    let mut i: usize = 0;
    assert(cs@.subrange(0, cs@.len() as int) =~= cs@);
    assert(cur@ =~= Seq::<char>::empty());
    while i < cs.len()
        invariant
            i <= cs.len(),
            cs@ == info@,
            kc@ == key@,
            info_value_spec(info@, key@) == last_value(
                words(cs@.subrange(i as int, cs@.len() as int), cur@),
                key@,
                opt_chars(acc),
            ),
        decreases cs.len() - i,
    {
        let ghost rest = cs@.subrange(i as int, cs@.len() as int);
        let ghost next = cs@.subrange(i + 1, cs@.len() as int);
        assert(rest.drop_first() =~= next);
        assert(rest[0] == cs@[i as int]);
        let c = cs[i];
        if is_whitespace(c) {
            if cur.len() > 0 {
                proof {
                    lemma_last_value_cat(
                        seq![cur@],
                        words(next, Seq::empty()),
                        key@,
                        opt_chars(acc),
                    );
                }
                acc = take_word(cur.as_slice(), kc.as_slice(), acc);
            } else {
                assert(Seq::<Seq<char>>::empty() + words(next, Seq::empty()) =~= words(next, Seq::empty()));
            }
            cur = Vec::new();
            assert(cur@ =~= Seq::<char>::empty());
        } else {
            cur.push(c);
        }
        i = i + 1;
    }
    assert(cs@.subrange(cs@.len() as int, cs@.len() as int) =~= Seq::<char>::empty());
    if cur.len() > 0 {
        acc = take_word(cur.as_slice(), kc.as_slice(), acc);
    }
    match acc {
        Some(v) => Some(string_from_chars(v.as_slice())),
        None => None,
    }
}

} // verus!
