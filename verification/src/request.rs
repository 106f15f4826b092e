//! Outbound requests: the descriptor that the transport is handed, and the
//! folding of body fields into a mapping with unique keys.

use crate::error::{HttpieError, HttpieErrorView};
use crate::kv::{KvPair, KvPairView};
use crate::header::{header_views, Header, HeaderView};
use crate::url::ValidatedUrl;
use vstd::prelude::*;

verus! {

/// The two request methods of the client.
#[derive(Debug, Clone, Copy, PartialEq, Eq, Structural)]
pub enum Method {
    Get,
    Post,
}

/// The values of a sequence of pairs.
pub open spec fn views(pairs: Seq<KvPair>) -> Seq<KvPairView> {
    pairs.map_values(|p: KvPair| p@)
}

/// Some entry has the key `k`.
pub open spec fn has_key(entries: Seq<KvPairView>, k: Seq<char>) -> bool {
    exists|i: int| 0 <= i < entries.len() && (#[trigger] entries[i]).k == k
}

/// `i` is the position of the first entry with the key `k`.
pub open spec fn is_first_with_key(entries: Seq<KvPairView>, k: Seq<char>, i: int) -> bool {
    &&& 0 <= i < entries.len()
    &&& entries[i].k == k
    &&& forall|j: int| 0 <= j < i ==> (#[trigger] entries[j]).k != k
}

/// No two entries share a key.
pub open spec fn unique_keys(entries: Seq<KvPairView>) -> bool {
    forall|i: int, j: int|
        0 <= i < j < entries.len() ==> (#[trigger] entries[i]).k != (#[trigger] entries[j]).k
}

/// Writes one pair into the entries: the value of an entry with the same
/// key is replaced where it stands, a new key is added at the end.
pub open spec fn upsert(entries: Seq<KvPairView>, p: KvPairView) -> Seq<KvPairView> {
    if has_key(entries, p.k) {
        entries.update(choose|i: int| is_first_with_key(entries, p.k, i), p)
    } else {
        entries.push(p)
    }
}

/// The entries of the body that a sequence of pairs builds: the pairs
/// written one after the other, in the order given.
pub open spec fn merged(pairs: Seq<KvPairView>) -> Seq<KvPairView>
    decreases pairs.len(),
{
    if pairs.len() == 0 {
        Seq::empty()
    } else {
        upsert(merged(pairs.drop_last()), pairs.last())
    }
}

/// The mapping that a sequence of pairs stands for when each pair
/// overwrites what was mapped to its key before.
pub open spec fn folded(pairs: Seq<KvPairView>) -> Map<Seq<char>, Seq<char>>
    decreases pairs.len(),
{
    if pairs.len() == 0 {
        Map::empty()
    } else {
        folded(pairs.drop_last()).insert(pairs.last().k, pairs.last().v)
    }
}

/// The entries read as a mapping from key to value; where a key occurs
/// more than once its first entry counts.
pub open spec fn as_map(entries: Seq<KvPairView>) -> Map<Seq<char>, Seq<char>> {
    Map::new(
        |k: Seq<char>| has_key(entries, k),
        |k: Seq<char>| entries[choose|i: int| is_first_with_key(entries, k, i)].v,
    )
}

/// Among entries with a key there is a first one.
pub proof fn lemma_first_with_key_exists(entries: Seq<KvPairView>, k: Seq<char>)
    requires
        has_key(entries, k),
    ensures
        exists|i: int| is_first_with_key(entries, k, i),
    decreases entries.len(),
{
    let w = choose|i: int| 0 <= i < entries.len() && (#[trigger] entries[i]).k == k;
    if exists|j: int| 0 <= j < w && (#[trigger] entries[j]).k == k {
        let j = choose|j: int| 0 <= j < w && (#[trigger] entries[j]).k == k;
        let shorter = entries.take(w);
        assert(shorter[j].k == k);
        lemma_first_with_key_exists(shorter, k);
        let f = choose|f: int| is_first_with_key(shorter, k, f);
        assert(entries[f] == shorter[f]);
        assert forall|x: int| 0 <= x < f implies (#[trigger] entries[x]).k != k by {
            assert(entries[x] == shorter[x]);
        }
        assert(is_first_with_key(entries, k, f));
    } else {
        assert(is_first_with_key(entries, k, w));
    }
}

/// The first entry with a key is one entry.
pub proof fn lemma_first_with_key_unique(entries: Seq<KvPairView>, k: Seq<char>, i: int, j: int)
    requires
        is_first_with_key(entries, k, i),
        is_first_with_key(entries, k, j),
    ensures
        i == j,
{
    if i < j {
        assert(entries[i].k != k);
    } else if j < i {
        assert(entries[j].k != k);
    }
}

/// Writing at a known first entry.
pub proof fn lemma_upsert_at(entries: Seq<KvPairView>, p: KvPairView, i: int)
    requires
        is_first_with_key(entries, p.k, i),
    ensures
        upsert(entries, p) == entries.update(i, p),
{
    assert(entries[i].k == p.k);
    let c = choose|c: int| is_first_with_key(entries, p.k, c);
    lemma_first_with_key_unique(entries, p.k, i, c);
}

/// Writing a pair keeps the keys unique.
pub proof fn lemma_upsert_unique(entries: Seq<KvPairView>, p: KvPairView)
    requires
        unique_keys(entries),
    ensures
        unique_keys(upsert(entries, p)),
{
    let next = upsert(entries, p);
    if has_key(entries, p.k) {
        lemma_first_with_key_exists(entries, p.k);
        let c = choose|c: int| is_first_with_key(entries, p.k, c);
        assert forall|i: int, j: int| 0 <= i < j < next.len() implies (#[trigger] next[i]).k != (
        #[trigger] next[j]).k by {
            assert(next[i].k == entries[i].k);
            assert(next[j].k == entries[j].k);
        }
    } else {
        assert forall|i: int, j: int| 0 <= i < j < next.len() implies (#[trigger] next[i]).k != (
        #[trigger] next[j]).k by {
            if j == entries.len() {
                assert(next[i] == entries[i]);
            } else {
                assert(next[i] == entries[i]);
                assert(next[j] == entries[j]);
            }
        }
    }
}

/// The entries of a built body never share a key.
pub proof fn law_merged_unique(pairs: Seq<KvPairView>)
    ensures
        unique_keys(merged(pairs)),
    decreases pairs.len(),
{
    if pairs.len() > 0 {
        law_merged_unique(pairs.drop_last());
        lemma_upsert_unique(merged(pairs.drop_last()), pairs.last());
    }
}

/// Writing a pair into the entries is an insertion into their mapping.
pub proof fn lemma_upsert_inserts(entries: Seq<KvPairView>, p: KvPairView)
    requires
        unique_keys(entries),
    ensures
        as_map(upsert(entries, p)) == as_map(entries).insert(p.k, p.v),
{
    let next = upsert(entries, p);
    lemma_upsert_unique(entries, p);
    let at: int = if has_key(entries, p.k) {
        lemma_first_with_key_exists(entries, p.k);
        choose|c: int| is_first_with_key(entries, p.k, c)
    } else {
        entries.len() as int
    };
    assert(next[at] == p);
    assert forall|i: int| 0 <= i < next.len() && i != at implies i < entries.len() && next[i]
        == entries[i] && entries[i].k != p.k by {
        if has_key(entries, p.k) {
            if i < at {
            } else {
                assert(entries[at].k == p.k);
            }
        }
    }
    assert forall|k: Seq<char>| has_key(next, k) <==> (k == p.k || has_key(entries, k)) by {
        if has_key(next, k) {
            let i = choose|i: int| 0 <= i < next.len() && (#[trigger] next[i]).k == k;
            if i != at {
                assert(entries[i].k == k);
            }
        }
        if k == p.k {
            assert(next[at].k == k);
        }
        if has_key(entries, k) && k != p.k {
            let i = choose|i: int| 0 <= i < entries.len() && (#[trigger] entries[i]).k == k;
            assert(i != at);
            assert(next[i].k == k);
        }
    }
    assert forall|k: Seq<char>| has_key(next, k) implies #[trigger] as_map(next)[k] == as_map(
        entries,
    ).insert(p.k, p.v)[k] by {
        lemma_first_with_key_exists(next, k);
        let i = choose|i: int| is_first_with_key(next, k, i);
        if k == p.k {
            assert(next[at].k == k);
            if i < at {
                assert(next[i].k != next[at].k);
            } else if at < i {
                assert(next[at].k != next[i].k);
            }
        } else {
            assert(i != at);
            assert(has_key(entries, k));
            lemma_first_with_key_exists(entries, k);
            let e = choose|e: int| is_first_with_key(entries, k, e);
            assert(e != at);
            assert(next[e].k == k);
            if i < e {
                assert(next[i].k != next[e].k);
            } else if e < i {
                assert(next[e].k != next[i].k);
            }
        }
    }
    assert(as_map(next) =~= as_map(entries).insert(p.k, p.v));
}

/// Last write wins: the built body maps each key to the value of the last
/// pair that has it, and holds no other key.
pub proof fn law_merged_is_folded(pairs: Seq<KvPairView>)
    ensures
        as_map(merged(pairs)) == folded(pairs),
    decreases pairs.len(),
{
    if pairs.len() == 0 {
        assert(as_map(merged(pairs)) =~= folded(pairs));
    } else {
        law_merged_is_folded(pairs.drop_last());
        law_merged_unique(pairs.drop_last());
        lemma_upsert_inserts(merged(pairs.drop_last()), pairs.last());
    }
}

/// The mapping of a sequence of pairs holds, for a pair that no later pair
/// overwrites, that pair's value; and its keys are the keys of the pairs.
pub proof fn law_last_write_wins(pairs: Seq<KvPairView>, i: int)
    requires
        0 <= i < pairs.len(),
        forall|j: int| i < j < pairs.len() ==> (#[trigger] pairs[j]).k != pairs[i].k,
    ensures
        folded(pairs).contains_key(pairs[i].k),
        folded(pairs)[pairs[i].k] == pairs[i].v,
    decreases pairs.len(),
{
    if i < pairs.len() - 1 {
        let rest = pairs.drop_last();
        assert(rest[i] == pairs[i]);
        assert forall|j: int| i < j < rest.len() implies (#[trigger] rest[j]).k != rest[i].k by {
            assert(rest[j] == pairs[j]);
        }
        law_last_write_wins(rest, i);
        assert(pairs[pairs.len() - 1].k != pairs[i].k);
    }
}

/// A key is mapped exactly when some pair has it.
pub proof fn law_folded_keys(pairs: Seq<KvPairView>, k: Seq<char>)
    ensures
        folded(pairs).contains_key(k) <==> has_key(pairs, k),
    decreases pairs.len(),
{
    if pairs.len() > 0 {
        let rest = pairs.drop_last();
        law_folded_keys(rest, k);
        if has_key(rest, k) {
            let i = choose|i: int| 0 <= i < rest.len() && (#[trigger] rest[i]).k == k;
            assert(pairs[i].k == k);
        }
        if has_key(pairs, k) && pairs.last().k != k {
            let i = choose|i: int| 0 <= i < pairs.len() && (#[trigger] pairs[i]).k == k;
            assert(rest[i].k == k);
        }
        if pairs.last().k == k {
            assert(pairs[pairs.len() - 1].k == k);
        }
    }
}

/// The position of the first entry with the key `k`, if there is one.
fn find_key(entries: &Vec<KvPair>, k: &String) -> (r: Option<usize>)
    ensures
        match r {
            Some(i) => is_first_with_key(views(entries@), k@, i as int),
            None => !has_key(views(entries@), k@),
        },
{
    let mut i: usize = 0;
    while i < entries.len()
        invariant
            i <= entries.len(),
            forall|j: int| 0 <= j < i ==> (#[trigger] views(entries@)[j]).k != k@,
        decreases entries.len() - i,
    {
        if entries[i].k == *k {
            return Some(i);
        }
        i += 1;
    }
    None
}

/// Tells whether no two entries share a key.
pub fn has_unique_keys(entries: &Vec<KvPair>) -> (r: bool)
    ensures
        r == unique_keys(views(entries@)),
{
    let mut i: usize = 0;
    while i < entries.len()
        invariant
            i <= entries.len(),
            forall|a: int, b: int|
                0 <= a < b < i ==> (#[trigger] views(entries@)[a]).k != (#[trigger] views(
                    entries@,
                )[b]).k,
        decreases entries.len() - i,
    {
        assert(views(entries@)[i as int].k == entries@[i as int].k@);
        match find_key(entries, &entries[i].k) {
            Some(at) => {
                if at != i {
                    assert(at < i) by {
                        if i < at {
                            assert(views(entries@)[i as int].k != entries@[i as int].k@);
                        }
                    }
                    assert(views(entries@)[at as int].k == views(entries@)[i as int].k);
                    return false;
                }
            },
            None => {
                assert(has_key(views(entries@), entries@[i as int].k@));
                return false;
            },
        }
        i += 1;
    }
    true
}

/// Folds body fields into entries with unique keys: a later field replaces
/// the value of an earlier one with the same key, where that one stands.
pub fn merge_pairs(pairs: &Vec<KvPair>) -> (entries: Vec<KvPair>)
    ensures
        views(entries@) == merged(views(pairs@)),
        unique_keys(views(entries@)),
        as_map(views(entries@)) == folded(views(pairs@)),
{
    let mut entries: Vec<KvPair> = Vec::new();
    let mut i: usize = 0;
    assert(views(pairs@).take(0) =~= Seq::empty());
    assert(views(entries@) =~= Seq::empty());
    while i < pairs.len()
        invariant
            i <= pairs.len(),
            views(entries@) == merged(views(pairs@).take(i as int)),
        decreases pairs.len() - i,
    {
        let ghost before = views(entries@);
        let pair = KvPair { k: pairs[i].k.clone(), v: pairs[i].v.clone() };
        assert(pair@ == views(pairs@)[i as int]);
        proof {
            let upto = views(pairs@).take(i as int + 1);
            assert(upto.drop_last() =~= views(pairs@).take(i as int));
            assert(upto.last() == pair@);
        }
        match find_key(&entries, &pair.k) {
            Some(at) => {
                proof {
                    lemma_upsert_at(before, pair@, at as int);
                }
                entries.set(at, pair);
                assert(views(entries@) =~= before.update(at as int, pair@));
            },
            None => {
                entries.push(pair);
                assert(views(entries@) =~= before.push(pair@));
            },
        }
        i += 1;
    }
    proof {
        assert(views(pairs@).take(pairs.len() as int) =~= views(pairs@));
        law_merged_unique(views(pairs@));
        law_merged_is_folded(views(pairs@));
    }
    entries
}

/// What the transport is handed: the method, the target and, for a POST,
/// the body as entries with unique keys.
#[derive(Debug, Clone)]
pub struct RequestDescriptor {
    pub method: Method,
    pub url: ValidatedUrl,
    pub body: Option<Vec<KvPair>>,
}

impl RequestDescriptor {
    /// A body is present exactly for a POST, and its keys are unique.
    pub open spec fn wf(&self) -> bool {
        &&& self.body is Some <==> self.method == Method::Post
        &&& self.body matches Some(entries) ==> unique_keys(views(entries@))
    }

    /// The body as the mapping that goes on the wire as one JSON object of
    /// string values.
    pub open spec fn body_map(&self) -> Option<Map<Seq<char>, Seq<char>>> {
        match self.body {
            Some(entries) => Some(as_map(views(entries@))),
            None => None,
        }
    }
}

/// Assembles a request. A GET carries no body, whatever the pairs are; a
/// POST carries the pairs folded into entries with unique keys, a later
/// pair overwriting an earlier one with the same key.
pub fn build(method: Method, url: ValidatedUrl, pairs: &Vec<KvPair>) -> (r: RequestDescriptor)
    ensures
        r.wf(),
        r.method == method,
        r.url@ == url@,
        method == Method::Get ==> r.body is None,
        method == Method::Post ==> r.body is Some && views(r.body->0@) == merged(views(pairs@)),
        method == Method::Post ==> r.body_map() == Some(folded(views(pairs@))),
{
    match method {
        Method::Get => RequestDescriptor { method, url, body: None },
        Method::Post => RequestDescriptor { method, url, body: Some(merge_pairs(pairs)) },
    }
}

/// The arguments of `get <url>`.
#[derive(Debug, Clone)]
pub struct Get {
    pub url: ValidatedUrl,
}

/// The arguments of `post <url> <key=value>...`.
#[derive(Debug, Clone)]
pub struct Post {
    pub url: ValidatedUrl,
    pub body: Vec<KvPair>,
}

/// The operation that the command line selects.
#[derive(Debug, Clone)]
pub enum SubCommand {
    Get(Get),
    Post(Post),
}

/// The request that `get` issues: a GET to the URL, without a body.
pub fn get(args: &Get) -> (r: RequestDescriptor)
    ensures
        r.wf(),
        r.method == Method::Get,
        r.url@ == args.url@,
        r.body is None,
{
    let none: Vec<KvPair> = Vec::new();
    build(Method::Get, args.url.clone(), &none)
}

/// The request that `post` issues: a POST to the URL whose body holds the
/// fields given, the last value of each key.
pub fn post(args: &Post) -> (r: RequestDescriptor)
    ensures
        r.wf(),
        r.method == Method::Post,
        r.url@ == args.url@,
        r.body is Some && views(r.body->0@) == merged(views(args.body@)),
        r.body_map() == Some(folded(views(args.body@))),
{
    build(Method::Post, args.url.clone(), &args.body)
}

/// The one request of an invocation.
pub fn request_for(command: &SubCommand) -> (r: RequestDescriptor)
    ensures
        r.wf(),
        match *command {
            SubCommand::Get(args) => r.method == Method::Get && r.url@ == args.url@ && r.body
                is None,
            SubCommand::Post(args) => r.method == Method::Post && r.url@ == args.url@ && r.body
                is Some && views(r.body->0@) == merged(views(args.body@)),
        },
{
    match command {
        SubCommand::Get(args) => get(args),
        SubCommand::Post(args) => post(args),
    }
}

/// The error of `serde_json::to_string`, carried through unopened.
#[verifier::external_type_specification]
#[verifier::external_body]
pub struct ExJsonError(serde_json::Error);

/// The JSON text that `serde_json::to_string` writes for the entries as
/// one object, each key mapped to its value as a string; `None` where it
/// refuses them.
pub uninterp spec fn json_object(entries: Seq<KvPairView>) -> Option<Seq<char>>;

/// Puts the entries into a map from key to value, ordered by key, and
/// calls `serde_json::to_string` on it. The keys must be unique, so that
/// the map holds every entry.
///
/// Trusted: the serialiser reads nothing but the map, so the outcome is
/// the value that [`json_object`] names for the entries.
#[verifier::external_body]
fn encode_object(entries: &Vec<KvPair>) -> (r: Result<String, serde_json::Error>)
    requires
        unique_keys(views(entries@)),
    ensures
        r matches Ok(text) ==> json_object(views(entries@)) == Some(text@),
        r is Err ==> json_object(views(entries@)) is None,
{
    let object: std::collections::BTreeMap<&str, &str> =
        entries.iter().map(|pair| (pair.k.as_str(), pair.v.as_str())).collect();
    serde_json::to_string(&object)
}

/// What is reported where a body cannot be written as JSON.
pub open spec fn encoding_failure() -> HttpieErrorView {
    HttpieErrorView::TransportFailure { reason: "The body could not be written as JSON"@ }
}

/// The bytes of a body on the wire: nothing without a body, else the
/// entries as one JSON object of string values.
pub open spec fn encoded(body: Option<Seq<KvPairView>>) -> Result<
    Option<Seq<char>>,
    HttpieErrorView,
> {
    match body {
        None => Ok(None),
        Some(entries) => match json_object(entries) {
            Some(text) => Ok(Some(text)),
            None => Err(encoding_failure()),
        },
    }
}

/// The headers that a request carries beside those of the client: a JSON
/// content type with a body, none without.
pub open spec fn body_headers(has_body: bool) -> Seq<HeaderView> {
    if has_body {
        seq![HeaderView { name: "Content-Type"@, value: "application/json"@ }]
    } else {
        Seq::empty()
    }
}

impl RequestDescriptor {
    /// The entries of the body, as values.
    pub open spec fn body_entries(&self) -> Option<Seq<KvPairView>> {
        match self.body {
            Some(entries) => Some(views(entries@)),
            None => None,
        }
    }

    /// Tells whether the descriptor is well formed: a body exactly for a
    /// POST, and no key twice in it.
    pub fn is_well_formed(&self) -> (r: bool)
        ensures
            r == self.wf(),
    {
        match &self.body {
            Some(entries) => self.method == Method::Post && has_unique_keys(entries),
            None => self.method == Method::Get,
        }
    }

    /// Writes the body of a well-formed descriptor as it goes on the wire:
    /// one JSON object that maps each key to its value, every value a
    /// string. A request without a body gives `None`.
    pub fn encode_body(&self) -> (r: Result<Option<String>, HttpieError>)
        requires
            self.wf(),
        ensures
            match r {
                Ok(Some(text)) => encoded(self.body_entries()) == Ok::<_, HttpieErrorView>(
                    Some(text@),
                ),
                Ok(None) => encoded(self.body_entries()) == Ok::<
                    Option<Seq<char>>,
                    HttpieErrorView,
                >(None),
                Err(e) => encoded(self.body_entries()) == Err::<Option<Seq<char>>, _>(e@),
            },
    {
        match &self.body {
            None => Ok(None),
            Some(entries) => match encode_object(entries) {
                Ok(text) => Ok(Some(text)),
                Err(_) => Err(
                    HttpieError::TransportFailure {
                        reason: String::from_str("The body could not be written as JSON"),
                    },
                ),
            },
        }
    }

    /// The headers of this request beside the fixed ones of the client.
    pub fn headers(&self) -> (headers: Vec<Header>)
        ensures
            header_views(headers@) == body_headers(self.body is Some),
    {
        let mut headers: Vec<Header> = Vec::new();
        if self.body.is_some() {
            headers.push(
                Header {
                    name: String::from_str("Content-Type"),
                    value: String::from_str("application/json"),
                },
            );
        }
        assert(header_views(headers@) =~= body_headers(self.body is Some));
        headers
    }
}

/// The headers that identify the client. They are the same for every
/// request and are made once, when the transport is set up.
pub open spec fn client_headers() -> Seq<HeaderView> {
    seq![
        HeaderView { name: "X-Powered-By"@, value: "RUST"@ },
        HeaderView { name: "User-Agent"@, value: "Rust Httpie"@ },
    ]
}

/// Makes the fixed header set of the client.
pub fn default_headers() -> (headers: Vec<Header>)
    ensures
        header_views(headers@) == client_headers(),
{
    let mut headers: Vec<Header> = Vec::new();
    headers.push(
        Header { name: String::from_str("X-Powered-By"), value: String::from_str("RUST") },
    );
    headers.push(
        Header { name: String::from_str("User-Agent"), value: String::from_str("Rust Httpie") },
    );
    assert(header_views(headers@) =~= client_headers());
    headers
}

} // verus!
