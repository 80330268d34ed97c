//! Parsing of `-name value` command flags into a keyed collection.

use vstd::prelude::*;

use crate::strutil::str_eq;

verus! {

/// The view of an optional flag value.
pub open spec fn opt_view(o: Option<String>) -> Option<Seq<char>> {
    match o {
        Some(s) => Some(s@),
        None => None,
    }
}

/// The stored flag association as a map from flag name to optional value.
pub open spec fn flags_map_of(s: Seq<(String, Option<String>)>) -> Map<
    Seq<char>,
    Option<Seq<char>>,
>
    decreases s.len(),
{
    if s.len() == 0 {
        Map::empty()
    } else {
        flags_map_of(s.drop_last()).insert(s.last().0@, opt_view(s.last().1))
    }
}

/// The name of a flag token: everything after a leading dash.
pub open spec fn spec_flag_name(t: Seq<char>) -> Option<Seq<char>> {
    if t.len() > 0 && t[0] == '-' {
        Some(t.skip(1))
    } else {
        None
    }
}

/// Flag parsing over a token list: each token must name a flag; a
/// following token that names no flag becomes its value. An offending
/// token is returned as the error.
pub open spec fn spec_parse_flags(
    tokens: Seq<Seq<char>>,
    acc: Map<Seq<char>, Option<Seq<char>>>,
) -> Result<Map<Seq<char>, Option<Seq<char>>>, Seq<char>>
    decreases tokens.len(),
{
    if tokens.len() == 0 {
        Ok(acc)
    } else {
        match spec_flag_name(tokens[0]) {
            None => Err(tokens[0]),
            Some(name) => if tokens.len() >= 2 && spec_flag_name(tokens[1]) is None {
                spec_parse_flags(tokens.skip(2), acc.insert(name, Some(tokens[1])))
            } else {
                spec_parse_flags(tokens.skip(1), acc.insert(name, None))
            },
        }
    }
}

/// A parsed set of command flags, one entry per flag name.
pub struct Flags {
    pub entries: Vec<(String, Option<String>)>,
}

impl Flags {
    /// Well-formedness: one entry per flag name.
    pub open spec fn wf(self) -> bool {
        forall|i: int, j: int|
            0 <= i < j < self.entries@.len() ==> (#[trigger] self.entries@[i]).0@ != (
            #[trigger] self.entries@[j]).0@
    }

    pub open spec fn view(self) -> Map<Seq<char>, Option<Seq<char>>> {
        flags_map_of(self.entries@)
    }

    /// Parses `tokens` into flags; an invalid token is reported in the
    /// error message.
    pub fn new(tokens: Vec<String>) -> (r: Result<Flags, String>)
        ensures
            match r {
                Ok(f) => {
                    &&& f.wf()
                    &&& spec_parse_flags(tokens.deep_view(), Map::empty()) == Ok::<
                        _,
                        Seq<char>,
                    >(f@)
                },
                Err(msg) => {
                    &&& spec_parse_flags(tokens.deep_view(), Map::empty()) is Err
                    &&& msg@ == "Invalid flag "@ + spec_parse_flags(
                        tokens.deep_view(),
                        Map::empty(),
                    )->Err_0
                },
            },
    {
        match try_parse_flags(tokens) {
            Ok(entries) => Ok(Flags { entries }),
            Err(error) => Err(error),
        }
    }

    /// The stored value of a flag: `None` when the flag is absent,
    /// `Some(None)` when it was given without a value.
    pub fn get(&self, flag_name: &str) -> (r: Option<Option<String>>)
        requires
            self.wf(),
        ensures
            match r {
                Some(v) => self@.dom().contains(flag_name@) && self@[flag_name@] == opt_view(v),
                None => !self@.dom().contains(flag_name@),
            },
    {
        let n = self.entries.len();
        let mut i: usize = 0;
        while i < n
            invariant
                0 <= i <= n,
                n == self.entries@.len(),
                self.wf(),
                forall|j: int| 0 <= j < i ==> (#[trigger] self.entries@[j]).0@ != flag_name@,
            decreases n - i,
        {
            if str_eq(self.entries[i].0.as_str(), flag_name) {
                proof {
                    lemma_flags_map_index(self.entries@, i as int);
                }
                let v = match &self.entries[i].1 {
                    Some(s) => Some(s.clone()),
                    None => None,
                };
                return Some(v);
            }
            i += 1;
        }
        proof {
            lemma_flags_map_contains(self.entries@, flag_name@);
        }
        None
    }

    /// Every stored flag with its value.
    pub fn get_all(&self) -> (r: Vec<(String, Option<String>)>)
        ensures
            r@.len() == self.entries@.len(),
            forall|i: int|
                0 <= i < r@.len() ==> (#[trigger] r@[i]).0@ == self.entries@[i].0@ && opt_view(
                    r@[i].1,
                ) == opt_view(self.entries@[i].1),
    {
        let n = self.entries.len();
        let mut out: Vec<(String, Option<String>)> = Vec::new();
        let mut i: usize = 0;
        while i < n
            invariant
                0 <= i <= n,
                n == self.entries@.len(),
                out@.len() == i,
                forall|j: int|
                    0 <= j < i ==> (#[trigger] out@[j]).0@ == self.entries@[j].0@ && opt_view(
                        out@[j].1,
                    ) == opt_view(self.entries@[j].1),
            decreases n - i,
        {
            let name = self.entries[i].0.clone();
            let value = match &self.entries[i].1 {
                Some(s) => Some(s.clone()),
                None => None,
            };
            out.push((name, value));
            i += 1;
        }
        out
    }
}

/// Map membership mirrors entry membership.
proof fn lemma_flags_map_contains(s: Seq<(String, Option<String>)>, k: Seq<char>)
    ensures
        flags_map_of(s).dom().contains(k) <==> exists|i: int|
            0 <= i < s.len() && (#[trigger] s[i]).0@ == k,
    decreases s.len(),
{
    if s.len() > 0 {
        lemma_flags_map_contains(s.drop_last(), k);
        if flags_map_of(s).dom().contains(k) && s.last().0@ != k {
            let i = choose|i: int|
                0 <= i < s.drop_last().len() && (#[trigger] s.drop_last()[i]).0@ == k;
            assert(s[i].0@ == k);
        }
        if exists|i: int| 0 <= i < s.len() && (#[trigger] s[i]).0@ == k {
            let i = choose|i: int| 0 <= i < s.len() && (#[trigger] s[i]).0@ == k;
            if i < s.len() - 1 {
                assert(s.drop_last()[i].0@ == k);
            }
        }
    }
}

/// With one entry per name, the map agrees with each entry.
proof fn lemma_flags_map_index(s: Seq<(String, Option<String>)>, i: int)
    requires
        0 <= i < s.len(),
        forall|p: int, q: int| 0 <= p < q < s.len() ==> (#[trigger] s[p]).0@ != (#[trigger] s[q]).0@,
    ensures
        flags_map_of(s).dom().contains(s[i].0@),
        flags_map_of(s)[s[i].0@] == opt_view(s[i].1),
    decreases s.len(),
{
    if i < s.len() - 1 {
        lemma_flags_map_index(s.drop_last(), i);
        assert(s.drop_last()[i] == s[i]);
        assert(s[i].0@ != s.last().0@);
    }
}

/// Updating one entry in place updates the map at its key.
proof fn lemma_flags_map_update(s: Seq<(String, Option<String>)>, i: int)
    requires
        0 <= i < s.len(),
        forall|p: int, q: int| 0 <= p < q < s.len() ==> (#[trigger] s[p]).0@ != (#[trigger] s[q]).0@,
    ensures
        forall|r: (String, Option<String>)|
            r.0@ == s[i].0@ ==> flags_map_of(#[trigger] s.update(i, r)) == flags_map_of(s).insert(
                s[i].0@,
                opt_view(r.1),
            ),
    decreases s.len(),
{
    assert forall|r: (String, Option<String>)|
        r.0@ == s[i].0@ implies flags_map_of(#[trigger] s.update(i, r)) == flags_map_of(s).insert(
        s[i].0@,
        opt_view(r.1),
    ) by {
        let su = s.update(i, r);
        if i == s.len() - 1 {
            assert(su.drop_last() =~= s.drop_last());
            assert(flags_map_of(su) =~= flags_map_of(s).insert(s[i].0@, opt_view(r.1)));
        } else {
            lemma_flags_map_update(s.drop_last(), i);
            assert(su.drop_last() =~= s.drop_last().update(i, r));
            assert(s.drop_last()[i] == s[i]);
            assert(flags_map_of(su.drop_last()) == flags_map_of(s.drop_last()).insert(
                s[i].0@,
                opt_view(r.1),
            ));
            assert(s[i].0@ != s.last().0@);
            assert(flags_map_of(su) =~= flags_map_of(s).insert(s[i].0@, opt_view(r.1)));
        }
    }
}

/// Checks a token for a leading dash and returns the flag name after it.
pub fn validate_flag(flag: &str) -> (r: Option<&str>)
    ensures
        match r {
            Some(rest) => spec_flag_name(flag@) == Some(rest@),
            None => spec_flag_name(flag@) is None,
        },
{
    let n = flag.unicode_len();
    if n == 0 {
        return None;
    }
    if flag.get_char(0) == '-' {
        let rest = flag.substring_char(1, n);
        proof {
            assert(rest@ =~= flag@.skip(1));
        }
        Some(rest)
    } else {
        None
    }
}

/// Parses the token list front to back: each token must name a flag, and
/// a following token that names no flag becomes its value; a later
/// occurrence of a flag replaces the earlier one.
pub fn try_parse_flags(tokens: Vec<String>) -> (r: Result<Vec<(String, Option<String>)>, String>)
    ensures
        match r {
            Ok(entries) => {
                &&& forall|i: int, j: int|
                    0 <= i < j < entries@.len() ==> (#[trigger] entries@[i]).0@ != (
                    #[trigger] entries@[j]).0@
                &&& spec_parse_flags(tokens.deep_view(), Map::empty()) == Ok::<_, Seq<char>>(
                    flags_map_of(entries@),
                )
            },
            Err(msg) => {
                &&& spec_parse_flags(tokens.deep_view(), Map::empty()) is Err
                &&& msg@ == "Invalid flag "@ + spec_parse_flags(
                    tokens.deep_view(),
                    Map::empty(),
                )->Err_0
            },
        },
{
    let ghost toks = tokens.deep_view();
    let n = tokens.len();
    let mut entries: Vec<(String, Option<String>)> = Vec::new();
    let mut i: usize = 0;
    proof {
        assert(toks.skip(0) =~= toks);
    }
    while i < n
        invariant
            0 <= i <= n,
            n == tokens@.len(),
            toks == tokens.deep_view(),
            toks.len() == n,
            forall|p: int, q: int|
                0 <= p < q < entries@.len() ==> (#[trigger] entries@[p]).0@ != (
                #[trigger] entries@[q]).0@,
            spec_parse_flags(toks, Map::empty()) == spec_parse_flags(
                toks.skip(i as int),
                flags_map_of(entries@),
            ),
        decreases n - i,
    {
        proof {
            assert(toks.skip(i as int)[0] == toks[i as int]);
            assert(toks[i as int] == tokens@[i as int]@);
        }
        let flag = &tokens[i];
        match validate_flag(flag.as_str()) {
            Some(flag_name) => {
                let name = flag_name.to_owned();
                let mut value: Option<String> = None;
                let mut step: usize = 1;
                if i + 1 < n {
                    proof {
                        assert(toks.skip(i as int)[1] == toks[i as int + 1]);
                        assert(toks[i as int + 1] == tokens@[i as int + 1]@);
                    }
                    let next = &tokens[i + 1];
                    if validate_flag(next.as_str()).is_none() {
                        value = Some(next.clone());
                        step = 2;
                    }
                }
                proof {
                    if step == 1 {
                        assert(toks.skip(i as int).skip(1) =~= toks.skip(i as int + 1));
                    } else {
                        assert(toks.skip(i as int).skip(2) =~= toks.skip(i as int + 2));
                    }
                }
                upsert_flag(&mut entries, name, value);
                i += step;
            },
            None => {
                let mut msg = "Invalid flag ".to_owned();
                msg.append(flag.as_str());
                return Err(msg);
            },
        }
    }
    proof {
        assert(toks.skip(n as int) =~= Seq::<Seq<char>>::empty());
    }
    Ok(entries)
}

/// Stores a flag, replacing any earlier entry with the same name.
fn upsert_flag(entries: &mut Vec<(String, Option<String>)>, name: String, value: Option<String>)
    requires
        forall|p: int, q: int|
            0 <= p < q < old(entries)@.len() ==> (#[trigger] old(entries)@[p]).0@ != (
            #[trigger] old(entries)@[q]).0@,
    ensures
        forall|p: int, q: int|
            0 <= p < q < final(entries)@.len() ==> (#[trigger] final(entries)@[p]).0@ != (
            #[trigger] final(entries)@[q]).0@,
        flags_map_of(final(entries)@) == flags_map_of(old(entries)@).insert(
            name@,
            opt_view(value),
        ),
{
    let n = entries.len();
    let mut i: usize = 0;
    while i < n
        invariant
            0 <= i <= n,
            n == entries@.len(),
            entries@ == old(entries)@,
            forall|p: int, q: int|
                0 <= p < q < entries@.len() ==> (#[trigger] entries@[p]).0@ != (
                #[trigger] entries@[q]).0@,
            forall|j: int| 0 <= j < i ==> (#[trigger] entries@[j]).0@ != name@,
        decreases n - i,
    {
        if str_eq(entries[i].0.as_str(), name.as_str()) {
            proof {
                lemma_flags_map_update(entries@, i as int);
            }
            let ghost pre = entries@;
            entries.set(i, (name, value));
            proof {
                assert forall|p: int, q: int|
                    0 <= p < q < entries@.len() implies (#[trigger] entries@[p]).0@ != (
                #[trigger] entries@[q]).0@ by {
                    assert(pre[p].0@ != pre[q].0@);
                    if p != i {
                        assert(entries@[p] == pre[p]);
                    }
                    if q != i {
                        assert(entries@[q] == pre[q]);
                    }
                }
            }
            return ;
        }
        i += 1;
    }
    let ghost pre = entries@;
    entries.push((name, value));
    proof {
        assert(entries@.drop_last() =~= pre);
        lemma_flags_map_contains(pre, name@);
        assert forall|p: int, q: int|
            0 <= p < q < entries@.len() implies (#[trigger] entries@[p]).0@ != (
        #[trigger] entries@[q]).0@ by {
            if q < entries@.len() - 1 {
                assert(entries@[p] == pre[p] && entries@[q] == pre[q]);
            } else {
                assert(entries@[p] == pre[p]);
            }
        }
    }
}

} // verus!
