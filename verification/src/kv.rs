//! Body fields: one `key=value` token of the command line.

use crate::error::{HttpieError, HttpieErrorView};
use vstd::prelude::*;

verus! {

/// One field of a request body.
///
/// The key is what stands before the first `=` of the token and so holds no
/// `=` itself; the value is everything after that `=`. A token that starts
/// with `=` is accepted and gives an empty key.
#[derive(Debug, PartialEq, Eq, Clone)]
pub struct KvPair {
    pub k: String,
    pub v: String,
}

/// The mathematical value of a [`KvPair`].
pub struct KvPairView {
    pub k: Seq<char>,
    pub v: Seq<char>,
}

impl View for KvPair {
    type V = KvPairView;

    open spec fn view(&self) -> KvPairView {
        KvPairView { k: self.k@, v: self.v@ }
    }
}

/// `i` is the position of the first `=` in `s`.
pub open spec fn is_first_separator(s: Seq<char>, i: int) -> bool {
    &&& 0 <= i < s.len()
    &&& s[i] == '='
    &&& forall|j: int| 0 <= j < i ==> s[j] != '='
}

/// The pair that a token stands for: the token split at its first `=`, or
/// `None` where it holds no `=`.
pub open spec fn split_pair(s: Seq<char>) -> Option<KvPairView> {
    if exists|i: int| is_first_separator(s, i) {
        let i = choose|i: int| is_first_separator(s, i);
        Some(KvPairView { k: s.subrange(0, i), v: s.subrange(i + 1, s.len() as int) })
    } else {
        None
    }
}

/// A token has at most one first separator.
pub proof fn lemma_first_separator_unique(s: Seq<char>, i: int, j: int)
    requires
        is_first_separator(s, i),
        is_first_separator(s, j),
    ensures
        i == j,
{
    if i < j {
        assert(s[i] != '=');
    } else if j < i {
        assert(s[j] != '=');
    }
}

/// Splitting at a known first separator.
pub proof fn lemma_split_at(s: Seq<char>, i: int)
    requires
        is_first_separator(s, i),
    ensures
        split_pair(s) == Some(
            KvPairView { k: s.subrange(0, i), v: s.subrange(i + 1, s.len() as int) },
        ),
{
    let c = choose|c: int| is_first_separator(s, c);
    lemma_first_separator_unique(s, i, c);
}

/// A token without any `=` stands for no pair.
pub proof fn lemma_no_separator_no_pair(s: Seq<char>)
    requires
        !s.contains('='),
    ensures
        split_pair(s) is None,
{
    assert forall|i: int| !is_first_separator(s, i) by {
        if 0 <= i < s.len() && s[i] == '=' {
            assert(s.contains('='));
        }
    }
}

/// The outcome of parsing a token: the pair that it stands for, or the
/// failure that carries the token.
pub open spec fn parsed(s: Seq<char>) -> Result<KvPairView, HttpieErrorView> {
    match split_pair(s) {
        Some(pair) => Ok(pair),
        None => Err(HttpieErrorView::MalformedPair { token: s }),
    }
}

/// Every token without `=` fails to parse, as a malformed pair.
pub proof fn law_no_separator_is_rejected(s: Seq<char>)
    requires
        !s.contains('='),
    ensures
        parsed(s) == Err::<KvPairView, _>(HttpieErrorView::MalformedPair { token: s }),
{
    lemma_no_separator_no_pair(s);
}

/// A key without `=`, an `=` and any value, joined, parse back to that key
/// and that value. The value may be empty and may hold further `=`; so may
/// the key be empty.
pub proof fn law_joined_pair_parses_back(k: Seq<char>, v: Seq<char>)
    requires
        !k.contains('='),
    ensures
        parsed(k + seq!['='] + v) == Ok::<_, HttpieErrorView>(KvPairView { k, v }),
{
    let s = k + seq!['='] + v;
    let i = k.len() as int;
    assert(s[i] == '=');
    assert forall|j: int| 0 <= j < i implies s[j] != '=' by {
        assert(s[j] == k[j]);
        if k[j] == '=' {
            assert(k.contains('='));
        }
    }
    assert(is_first_separator(s, i));
    lemma_split_at(s, i);
    assert(s.subrange(0, i) =~= k);
    assert(s.subrange(i + 1, s.len() as int) =~= v);
}

/// A token parses exactly when it holds an `=`.
pub proof fn law_parses_iff_separator(s: Seq<char>)
    ensures
        parsed(s) is Ok <==> s.contains('='),
{
    if s.contains('=') {
        let i = s.index_of_first('=');
        s.index_of_first_ensures('=');
        assert(is_first_separator(s, i.unwrap()));
    } else {
        lemma_no_separator_no_pair(s);
    }
}

/// The key of a parsed pair holds no `=`, and key, `=` and value joined
/// are the token.
pub proof fn law_parsed_pair_rebuilds_token(s: Seq<char>)
    requires
        parsed(s) is Ok,
    ensures
        !parsed(s)->Ok_0.k.contains('='),
        parsed(s)->Ok_0.k + seq!['='] + parsed(s)->Ok_0.v == s,
{
    let i = choose|i: int| is_first_separator(s, i);
    let k = s.subrange(0, i);
    if k.contains('=') {
        let j = choose|j: int| 0 <= j < k.len() && k[j] == '=';
        assert(s[j] == '=');
    }
    assert(k + seq!['='] + s.subrange(i + 1, s.len() as int) =~= s);
}

impl KvPair {
    /// Parses one token by splitting it at its first `=`.
    ///
    /// Fails with [`HttpieError::MalformedPair`], which carries the token,
    /// exactly when the token holds no `=`.
    pub fn from_str(s: &str) -> (r: Result<KvPair, HttpieError>)
        ensures
            match r {
                Ok(pair) => parsed(s@) == Ok::<_, HttpieErrorView>(pair@),
                Err(e) => parsed(s@) == Err::<KvPairView, _>(e@),
            },
    {
        let n = s.unicode_len();
        let mut i: usize = 0;
        for c in it: s.chars()
            invariant
                i == it.index(),
                it.seq() == s@,
                n == s@.len(),
                forall|j: int| 0 <= j < i ==> s@[j] != '=',
        {
            if c == '=' {
                proof {
                    lemma_split_at(s@, i as int);
                }
                let k = String::from_str(s.substring_char(0, i));
                let v = String::from_str(s.substring_char(i + 1, n));
                return Ok(KvPair { k, v });
            }
            i += 1;
        }
        proof {
            assert(!s@.contains('='));
            lemma_no_separator_no_pair(s@);
        }
        Err(HttpieError::MalformedPair { token: String::from_str(s) })
    }
}

impl std::str::FromStr for KvPair {
    type Err = HttpieError;

    /// Parses one token as [`KvPair::from_str`] does, for callers that go
    /// through `str::parse`.
    fn from_str(s: &str) -> (r: Result<KvPair, HttpieError>)
        ensures
            match r {
                Ok(pair) => parsed(s@) == Ok::<_, HttpieErrorView>(pair@),
                Err(e) => parsed(s@) == Err::<KvPairView, _>(e@),
            },
    {
        KvPair::from_str(s)
    }
}

/// Parses one body token of the command line; see [`KvPair::from_str`].
pub fn parse_kv_pair(s: &str) -> (r: Result<KvPair, HttpieError>)
    ensures
        match r {
            Ok(pair) => parsed(s@) == Ok::<_, HttpieErrorView>(pair@),
            Err(e) => parsed(s@) == Err::<KvPairView, _>(e@),
        },
{
    KvPair::from_str(s)
}

} // verus!
