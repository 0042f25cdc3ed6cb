//! Request parameters and the signature that the service asks for.
//!
//! A parameter set is a mapping from names to values. Its signature is the
//! MD5 digest, in lowercase hexadecimal, of the names taken in ascending
//! byte order, each followed at once by its value, and then the shared secret.

use crate::text::{lemma_str_lt_total, lemma_str_lt_transitive, str_eq, str_less, str_lt};
use vstd::prelude::*;
use vstd::string::*;
use vstd::utf8::*;

verus! {

/// The mapping that a list of pairs defines: a later pair replaces an earlier
/// one of the same name.
pub open spec fn map_of(pairs: Seq<(Seq<char>, Seq<char>)>) -> Map<Seq<char>, Seq<char>>
    decreases pairs.len(),
{
    if pairs.len() == 0 {
        Map::empty()
    } else {
        map_of(pairs.drop_last()).insert(pairs.last().0, pairs.last().1)
    }
}

/// No name occurs twice in a list of pairs.
pub open spec fn distinct_names(pairs: Seq<(Seq<char>, Seq<char>)>) -> bool {
    forall|i: int, j: int|
        0 <= i < j < pairs.len() ==> (#[trigger] pairs[i]).0 != (#[trigger] pairs[j]).0
}

/// The names of a list run in strictly ascending byte order.
pub open spec fn ascending(names: Seq<Seq<char>>) -> bool {
    forall|i: int, j: int|
        0 <= i < j < names.len() ==> str_lt(#[trigger] names[i], #[trigger] names[j])
}

/// `names` lists the names of `params`, each once, in ascending byte order.
pub open spec fn lists_names(names: Seq<Seq<char>>, params: Map<Seq<char>, Seq<char>>) -> bool {
    &&& ascending(names)
    &&& forall|name: Seq<char>| params.dom().contains(name) <==> names.contains(name)
}

/// The names of a parameter set in ascending byte order.
pub open spec fn sorted_names(params: Map<Seq<char>, Seq<char>>) -> Seq<Seq<char>> {
    choose|names: Seq<Seq<char>>| lists_names(names, params)
}

/// Each of `names`, in the order given, followed at once by its value.
pub open spec fn names_and_values(names: Seq<Seq<char>>, params: Map<Seq<char>, Seq<char>>) -> Seq<
    char,
>
    decreases names.len(),
{
    if names.len() == 0 {
        Seq::empty()
    } else {
        names_and_values(names.drop_last(), params) + names.last() + params[names.last()]
    }
}

/// The text that is digested: every name in ascending byte order with its
/// value, then the secret.
pub open spec fn signing_base(params: Map<Seq<char>, Seq<char>>, secret: Seq<char>) -> Seq<char> {
    names_and_values(sorted_names(params), params) + secret
}

/// The character of one hexadecimal digit, in lowercase.
pub open spec fn hex_digit(d: int) -> char {
    if d < 10 {
        (d + 48) as u8 as char
    } else {
        (d + 87) as u8 as char
    }
}

/// Bytes in lowercase hexadecimal, two digits for each byte.
pub open spec fn lower_hex(bytes: Seq<u8>) -> Seq<char>
    decreases bytes.len(),
{
    if bytes.len() == 0 {
        Seq::empty()
    } else {
        lower_hex(bytes.drop_last()).push(hex_digit(bytes.last() as int / 16)).push(
            hex_digit(bytes.last() as int % 16),
        )
    }
}

/// Whether a character is a hexadecimal digit in lowercase.
pub open spec fn is_lower_hex(c: char) -> bool {
    ('0' <= c <= '9') || ('a' <= c <= 'f')
}

/// The shape of every signature: 32 hexadecimal digits in lowercase.
pub open spec fn is_signature(text: Seq<char>) -> bool {
    &&& text.len() == 32
    &&& forall|i: int| 0 <= i < text.len() ==> is_lower_hex(#[trigger] text[i])
}

/// The MD5 digest of a byte string.
pub uninterp spec fn md5_digest(data: Seq<u8>) -> Seq<u8>;

/// The signature of a parameter set under a secret.
pub open spec fn signature_of(params: Map<Seq<char>, Seq<char>>, secret: Seq<char>) -> Seq<char> {
    lower_hex(md5_digest(encode_utf8(signing_base(params, secret))))
}

/// `md5::compute`, rendered by the `LowerHex` of its `Digest`: the 16 bytes of
/// the MD5 digest of `data`, each written as two lowercase hexadecimal digits.
#[verifier::external_body]
fn md5_hex(data: &[u8]) -> (hex: String)
    ensures
        hex@ == lower_hex(md5_digest(data@)),
        hex@.len() == 32,
{
    format!("{:x}", md5::compute(data))
}

/// Hexadecimal text has two lowercase digits for each byte.
pub proof fn lemma_lower_hex_shape(bytes: Seq<u8>)
    ensures
        lower_hex(bytes).len() == 2 * bytes.len(),
        forall|i: int|
            0 <= i < lower_hex(bytes).len() ==> is_lower_hex(#[trigger] lower_hex(bytes)[i]),
    decreases bytes.len(),
{
    if bytes.len() > 0 {
        lemma_lower_hex_shape(bytes.drop_last());
        let high = bytes.last() as int / 16;
        let low = bytes.last() as int % 16;
        assert(is_lower_hex(hex_digit(high)));
        assert(is_lower_hex(hex_digit(low)));
    }
}

/// A mapping has the names of its pairs, and for a list without repeated
/// names, the value of each pair.
pub proof fn lemma_map_of(pairs: Seq<(Seq<char>, Seq<char>)>)
    ensures
        forall|name: Seq<char>|
            map_of(pairs).dom().contains(name) <==> exists|i: int|
                0 <= i < pairs.len() && (#[trigger] pairs[i]).0 == name,
        distinct_names(pairs) ==> forall|i: int|
            0 <= i < pairs.len() ==> map_of(pairs)[(#[trigger] pairs[i]).0] == pairs[i].1,
    decreases pairs.len(),
{
    if pairs.len() > 0 {
        let front = pairs.drop_last();
        lemma_map_of(front);
        assert forall|name: Seq<char>|
            map_of(pairs).dom().contains(name) <==> exists|i: int|
                0 <= i < pairs.len() && (#[trigger] pairs[i]).0 == name by {
            if map_of(pairs).dom().contains(name) {
                if name == pairs.last().0 {
                    assert(pairs[pairs.len() - 1].0 == name);
                } else {
                    assert(map_of(front).dom().contains(name));
                    let i = choose|i: int| 0 <= i < front.len() && (#[trigger] front[i]).0 == name;
                    assert(pairs[i].0 == name);
                }
            }
            if exists|i: int| 0 <= i < pairs.len() && (#[trigger] pairs[i]).0 == name {
                let i = choose|i: int| 0 <= i < pairs.len() && (#[trigger] pairs[i]).0 == name;
                if i < front.len() {
                    assert(front[i].0 == name);
                    assert(map_of(front).dom().contains(name));
                }
            }
        }
        if distinct_names(pairs) {
            assert(distinct_names(front)) by {
                assert forall|i: int, j: int| 0 <= i < j < front.len() implies (
                #[trigger] front[i]).0 != (#[trigger] front[j]).0 by {
                    assert(pairs[i].0 != pairs[j].0);
                }
            }
            assert forall|i: int| 0 <= i < pairs.len() implies map_of(pairs)[(
            #[trigger] pairs[i]).0] == pairs[i].1 by {
                if i < front.len() {
                    assert(pairs[i].0 != pairs[pairs.len() - 1].0);
                    assert(front[i] == pairs[i]);
                }
            }
        }
    }
}

/// Two ascending lists of the same names are one list.
pub proof fn lemma_ascending_unique(a: Seq<Seq<char>>, b: Seq<Seq<char>>)
    requires
        ascending(a),
        ascending(b),
        forall|name: Seq<char>| a.contains(name) <==> b.contains(name),
    ensures
        a == b,
    decreases a.len(),
{
    if a.len() == 0 {
        if b.len() > 0 {
            assert(b.contains(b[0]));
        }
        assert(a =~= b);
    } else if b.len() == 0 {
        assert(a.contains(a[0]));
    } else {
        let x = a.last();
        let y = b.last();
        assert(a.contains(x));
        assert(b.contains(y));
        let i = choose|i: int| 0 <= i < b.len() && b[i] == x;
        let j = choose|j: int| 0 <= j < a.len() && a[j] == y;
        lemma_str_lt_total(x, y);
        assert(x == y) by {
            if x != y {
                // x is in b before or at its last name y, and y in a before or at x
                assert(i != b.len() - 1);
                assert(j != a.len() - 1);
                assert(str_lt(b[i], b[b.len() - 1]));
                assert(str_lt(a[j], a[a.len() - 1]));
            }
        }
        let a0 = a.drop_last();
        let b0 = b.drop_last();
        assert forall|name: Seq<char>| a0.contains(name) <==> b0.contains(name) by {
            if a0.contains(name) {
                let k = choose|k: int| 0 <= k < a0.len() && a0[k] == name;
                assert(a[k] == name);
                assert(str_lt(a[k], a[a.len() - 1]));
                lemma_str_lt_total(name, x);
                assert(a.contains(name));
                let m = choose|m: int| 0 <= m < b.len() && b[m] == name;
                assert(m != b.len() - 1);
                assert(b0[m] == name);
            }
            if b0.contains(name) {
                let k = choose|k: int| 0 <= k < b0.len() && b0[k] == name;
                assert(b[k] == name);
                assert(str_lt(b[k], b[b.len() - 1]));
                lemma_str_lt_total(name, y);
                assert(b.contains(name));
                let m = choose|m: int| 0 <= m < a.len() && a[m] == name;
                assert(m != a.len() - 1);
                assert(a0[m] == name);
            }
        }
        assert(ascending(a0)) by {
            assert forall|p: int, q: int| 0 <= p < q < a0.len() implies str_lt(
                #[trigger] a0[p],
                #[trigger] a0[q],
            ) by {
                assert(str_lt(a[p], a[q]));
            }
        }
        assert(ascending(b0)) by {
            assert forall|p: int, q: int| 0 <= p < q < b0.len() implies str_lt(
                #[trigger] b0[p],
                #[trigger] b0[q],
            ) by {
                assert(str_lt(b[p], b[q]));
            }
        }
        lemma_ascending_unique(a0, b0);
        assert(a =~= a0.push(x));
        assert(b =~= b0.push(y));
    }
}

/// An ascending list of the names of a parameter set is its list of sorted
/// names.
pub proof fn lemma_sorted_names(names: Seq<Seq<char>>, params: Map<Seq<char>, Seq<char>>)
    requires
        lists_names(names, params),
    ensures
        sorted_names(params) == names,
{
    let chosen = sorted_names(params);
    assert(lists_names(chosen, params));
    lemma_ascending_unique(chosen, names);
}

/// The pairs of names and values that a list of entries holds.
pub open spec fn pairs_of(entries: Seq<(String, String)>) -> Seq<(Seq<char>, Seq<char>)> {
    entries.map_values(|entry: (String, String)| (entry.0@, entry.1@))
}

/// The names that a list of entries holds.
pub open spec fn names_of(entries: Seq<(String, String)>) -> Seq<Seq<char>> {
    entries.map_values(|entry: (String, String)| entry.0@)
}

/// In an ascending list of entries no name occurs twice, and the mapping of
/// the entries has exactly their names.
pub proof fn lemma_ascending_entries(entries: Seq<(String, String)>)
    requires
        ascending(names_of(entries)),
    ensures
        distinct_names(pairs_of(entries)),
        lists_names(names_of(entries), map_of(pairs_of(entries))),
{
    let pairs = pairs_of(entries);
    let names = names_of(entries);
    assert forall|i: int, j: int| 0 <= i < j < pairs.len() implies (#[trigger] pairs[i]).0 != (
    #[trigger] pairs[j]).0 by {
        assert(str_lt(names[i], names[j]));
        lemma_str_lt_total(names[i], names[j]);
    }
    lemma_map_of(pairs);
    assert forall|name: Seq<char>| map_of(pairs).dom().contains(name) <==> names.contains(name) by {
        if map_of(pairs).dom().contains(name) {
            let i = choose|i: int| 0 <= i < pairs.len() && (#[trigger] pairs[i]).0 == name;
            assert(names[i] == name);
        }
        if names.contains(name) {
            let i = choose|i: int| 0 <= i < names.len() && names[i] == name;
            assert(pairs[i].0 == name);
        }
    }
}

/// A set of request parameters: a mapping from names to values.
#[derive(Debug)]
pub struct Params {
    entries: Vec<(String, String)>,
}

impl View for Params {
    type V = Map<Seq<char>, Seq<char>>;

    closed spec fn view(&self) -> Map<Seq<char>, Seq<char>> {
        map_of(pairs_of(self.entries@))
    }
}

impl Params {
    #[verifier::type_invariant]
    spec fn kept_ascending(&self) -> bool {
        ascending(names_of(self.entries@))
    }

    /// The empty parameter set.
    pub fn new() -> (params: Params)
        ensures
            params@ == Map::<Seq<char>, Seq<char>>::empty(),
    {
        Params { entries: Vec::new() }
    }

    /// The set that a list of pairs defines: a later pair replaces an
    /// earlier one of the same name.
    pub fn from_pairs(pairs: Vec<(String, String)>) -> (params: Params)
        ensures
            params@ == map_of(pairs_of(pairs@)),
    {
        let ghost given = pairs@;
        let ghost all = pairs_of(pairs@);
        let mut params = Params::new();
        assert(all.take(0) =~= Seq::<(Seq<char>, Seq<char>)>::empty());
        for pair in it: pairs
            invariant
                it.seq() == given,
                all == pairs_of(given),
                params@ == map_of(all.take(it.index())),
        {
            proof {
                let at = it.index();
                assert(all.take(at + 1).drop_last() =~= all.take(at));
                assert(all.take(at + 1).last() == (pair.0@, pair.1@));
            }
            params = params.with(pair.0.as_str(), pair.1);
        }
        assert(all.take(all.len() as int) =~= all);
        params
    }

    /// The entries in ascending byte order of their names.
    pub fn entries(&self) -> (entries: &Vec<(String, String)>)
        ensures
            ascending(names_of(entries@)),
            map_of(pairs_of(entries@)) == self@,
    {
        proof {
            use_type_invariant(self);
        }
        &self.entries
    }

    /// The value of a parameter, where the set has that name.
    pub fn get(&self, name: &str) -> (value: Option<&String>)
        ensures
            value is Some <==> self@.dom().contains(name@),
            value is Some ==> value->0@ == self@[name@],
    {
        proof {
            use_type_invariant(self);
            lemma_ascending_entries(self.entries@);
            lemma_map_of(pairs_of(self.entries@));
        }
        let mut i: usize = 0;
        while i < self.entries.len() && !str_eq(self.entries[i].0.as_str(), name)
            invariant
                i <= self.entries.len(),
                forall|j: int| 0 <= j < i ==> (#[trigger] pairs_of(self.entries@)[j]).0 != name@,
            decreases self.entries.len() - i,
        {
            i += 1;
        }
        if i < self.entries.len() {
            assert(pairs_of(self.entries@)[i as int] == (name@, self.entries@[i as int].1@));
            Some(&self.entries[i].1)
        } else {
            None
        }
    }

    /// The set with one parameter set, in place of the value that the name
    /// had, if any.
    pub fn with(self, name: &str, value: String) -> (params: Params)
        ensures
            params@ == self@.insert(name@, value@),
    {
        proof {
            use_type_invariant(&self);
            lemma_ascending_entries(self.entries@);
        }
        let mut entries = self.entries;
        let mut at: usize = 0;
        while at < entries.len() && str_less(entries[at].0.as_str(), name)
            invariant
                at <= entries.len(),
                forall|j: int| 0 <= j < at ==> str_lt(#[trigger] names_of(entries@)[j], name@),
            decreases entries.len() - at,
        {
            at += 1;
        }
        let ghost before = entries@;
        let replace = at < entries.len() && str_eq(entries[at].0.as_str(), name);
        if replace {
            entries.set(at, (name.to_owned(), value));
        } else {
            entries.insert(at, (name.to_owned(), value));
        }
        proof {
            let after = entries@;
            let names = names_of(after);
            let old_names = names_of(before);
            assert forall|i: int, j: int| 0 <= i < j < names.len() implies str_lt(
                #[trigger] names[i],
                #[trigger] names[j],
            ) by {
                if replace {
                    assert(str_lt(old_names[i], old_names[j]));
                } else {
                    let a = if i < at { i } else { i - 1 };
                    let b = if j < at { j } else { j - 1 };
                    if i == at {
                        assert(old_names[b] == names[j]);
                        if b > at {
                            assert(str_lt(old_names[at as int], old_names[b]));
                        }
                        lemma_str_lt_total(old_names[at as int], name@);
                        if b > at {
                            lemma_str_lt_transitive(name@, old_names[at as int], old_names[b]);
                        }
                    } else if j == at {
                        assert(old_names[a] == names[i]);
                    } else {
                        assert(old_names[a] == names[i]);
                        assert(old_names[b] == names[j]);
                        assert(str_lt(old_names[a], old_names[b]));
                    }
                }
            }
            lemma_ascending_entries(after);
            lemma_map_of(pairs_of(after));
            lemma_map_of(pairs_of(before));
            let new_map = map_of(pairs_of(after));
            let want = map_of(pairs_of(before)).insert(name@, value@);
            assert(pairs_of(after)[at as int] == (name@, value@));
            assert forall|key: Seq<char>|
                new_map.dom().contains(key) <==> want.dom().contains(key) by {
                if new_map.dom().contains(key) {
                    let i = choose|i: int|
                        0 <= i < after.len() && (#[trigger] pairs_of(after)[i]).0 == key;
                    if i != at {
                        let a = if replace || i < at { i } else { i - 1 };
                        assert(pairs_of(before)[a].0 == key);
                    }
                }
                if want.dom().contains(key) && key != name@ {
                    let a = choose|a: int|
                        0 <= a < before.len() && (#[trigger] pairs_of(before)[a]).0 == key;
                    let i = if replace || a < at { a } else { a + 1 };
                    assert(pairs_of(after)[i].0 == key);
                }
            }
            assert forall|key: Seq<char>| new_map.dom().contains(key) implies new_map[key]
                == want[key] by {
                let i = choose|i: int|
                    0 <= i < after.len() && (#[trigger] pairs_of(after)[i]).0 == key;
                if i != at {
                    let a = if replace || i < at { i } else { i - 1 };
                    assert(pairs_of(before)[a] == pairs_of(after)[i]);
                    assert(pairs_of(before)[a].0 == key);
                    assert(key != name@) by {
                        if replace {
                            assert(pairs_of(before)[at as int].0 == name@);
                        } else if a < at {
                            assert(str_lt(old_names[a], name@));
                            lemma_str_lt_total(old_names[a], name@);
                        } else {
                            assert(str_lt(old_names[at as int], old_names[a]) || a == at);
                            lemma_str_lt_total(old_names[at as int], name@);
                            lemma_str_lt_total(old_names[a], name@);
                            if a != at {
                                lemma_str_lt_transitive(name@, old_names[at as int], old_names[a]);
                            }
                        }
                    }
                }
            }
            assert(new_map =~= want);
        }
        Params { entries }
    }
}

/// The signature of a parameter set under a shared secret: 32 lowercase
/// hexadecimal digits, the same whatever order the set was filled in.
pub fn sign(params: &Params, secret: &str) -> (signature: String)
    ensures
        signature@ == signature_of(params@, secret@),
        is_signature(signature@),
{
    let entries = params.entries();
    let ghost names = names_of(entries@);
    proof {
        lemma_ascending_entries(entries@);
        lemma_map_of(pairs_of(entries@));
        lemma_sorted_names(names, params@);
    }
    let mut base = String::new();
    let mut i: usize = 0;
    while i < entries.len()
        invariant
            i <= entries.len(),
            names == names_of(entries@),
            distinct_names(pairs_of(entries@)),
            map_of(pairs_of(entries@)) == params@,
            forall|k: int|
                0 <= k < entries.len() ==> params@[(#[trigger] pairs_of(entries@)[k]).0]
                    == pairs_of(entries@)[k].1,
            base@ == names_and_values(names.take(i as int), params@),
        decreases entries.len() - i,
    {
        proof {
            assert(names.take(i + 1).drop_last() =~= names.take(i as int));
            assert(names.take(i + 1).last() == entries@[i as int].0@);
            assert(pairs_of(entries@)[i as int].1 == entries@[i as int].1@);
        }
        base.append(entries[i].0.as_str());
        base.append(entries[i].1.as_str());
        i += 1;
    }
    base.append(secret);
    proof {
        assert(names.take(i as int) =~= names);
        assert(base@ == signing_base(params@, secret@));
        lemma_lower_hex_shape(md5_digest(encode_utf8(base@)));
    }
    md5_hex(base.as_str().as_bytes())
}

/// The signature does not depend on the order in which the parameters are
/// given: two lists of pairs without repeated names that hold the same pairs
/// have the same signature.
pub proof fn lemma_signature_ignores_order(
    a: Seq<(Seq<char>, Seq<char>)>,
    b: Seq<(Seq<char>, Seq<char>)>,
    secret: Seq<char>,
)
    requires
        distinct_names(a),
        distinct_names(b),
        forall|pair: (Seq<char>, Seq<char>)| a.contains(pair) <==> b.contains(pair),
    ensures
        map_of(a) == map_of(b),
        signature_of(map_of(a), secret) == signature_of(map_of(b), secret),
{
    lemma_map_of(a);
    lemma_map_of(b);
    assert forall|name: Seq<char>| map_of(a).dom().contains(name) <==> map_of(b).dom().contains(
        name,
    ) by {
        if map_of(a).dom().contains(name) {
            let i = choose|i: int| 0 <= i < a.len() && (#[trigger] a[i]).0 == name;
            assert(a.contains(a[i]));
            let j = choose|j: int| 0 <= j < b.len() && b[j] == a[i];
            assert(b[j].0 == name);
        }
        if map_of(b).dom().contains(name) {
            let i = choose|i: int| 0 <= i < b.len() && (#[trigger] b[i]).0 == name;
            assert(b.contains(b[i]));
            let j = choose|j: int| 0 <= j < a.len() && a[j] == b[i];
            assert(a[j].0 == name);
        }
    }
    assert forall|name: Seq<char>| map_of(a).dom().contains(name) implies map_of(a)[name] == map_of(
        b,
    )[name] by {
        let i = choose|i: int| 0 <= i < a.len() && (#[trigger] a[i]).0 == name;
        assert(a.contains(a[i]));
        let j = choose|j: int| 0 <= j < b.len() && b[j] == a[i];
        assert(b[j].0 == name);
    }
    assert(map_of(a) =~= map_of(b));
}

} // verus!
