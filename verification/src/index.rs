//! Reading the account index: cleaning the bytes of the index file,
//! deciding between the parsed index and recovery, and rebuilding the index
//! from the accounts' own records.

use crate::account::{emails_unique, index_wf};
use crate::model::{
    accounts_view, pairs_view, projection, summaries_view, summary_of, Account, AccountIndex,
    AccountIndexView, AccountSummary, AccountSummaryView, AccountView, INDEX_VERSION,
};
use crate::text::{chars_of, is_blank, owned, str_is_blank};
use vstd::prelude::*;
use vstd::seq_lib::{
    to_multiset_build, to_multiset_contains, to_multiset_insert, to_multiset_len,
    to_multiset_remove,
};
use vstd::slice::{slice_subrange, slice_to_vec};
use vstd::utf8::{decode_utf8, valid_utf8};

verus! {

/// The bytes begin with the UTF-8 byte-order mark.
pub open spec fn has_bom(raw: Seq<u8>) -> bool {
    raw.len() >= 3 && raw[0] == 0xEF && raw[1] == 0xBB && raw[2] == 0xBF
}

/// The bytes without a byte-order mark at their start.
pub open spec fn without_bom(raw: Seq<u8>) -> Seq<u8> {
    if has_bom(raw) {
        raw.skip(3)
    } else {
        raw
    }
}

/// The number of zero bytes at the start of `s`.
pub open spec fn leading_nuls(s: Seq<u8>) -> int
    decreases s.len(),
{
    if s.len() == 0 || s[0] != 0 {
        0
    } else {
        1 + leading_nuls(s.drop_first())
    }
}

/// The bytes that are left when a byte-order mark and then every leading
/// zero byte have been taken off.
pub open spec fn sanitized_bytes(raw: Seq<u8>) -> Seq<u8> {
    without_bom(raw).skip(leading_nuls(without_bom(raw)))
}

/// The text that `String::from_utf8_lossy` makes of `bytes`: the decoded
/// text, with the replacement character where the bytes are no valid UTF-8.
pub uninterp spec fn utf8_lossy(bytes: Seq<u8>) -> Seq<char>;

/// The text of an index file's bytes, cleaned.
pub open spec fn sanitized_text(raw: Seq<u8>) -> Seq<char> {
    utf8_lossy(sanitized_bytes(raw))
}

/// Calls `String::from_utf8_lossy`. The contract names its result and says
/// what the documentation gives for valid UTF-8: the decoded text.
#[verifier::external_body]
fn from_utf8_lossy(bytes: &[u8]) -> (r: String)
    ensures
        r@ == utf8_lossy(bytes@),
        valid_utf8(bytes@) ==> r@ == decode_utf8(bytes@),
{
    String::from_utf8_lossy(bytes).into_owned()
}

/// A run of `k` zero bytes that ends the bytes or is followed by another byte
/// is the whole run of leading zero bytes.
pub proof fn lemma_leading_nuls_is(s: Seq<u8>, k: int)
    requires
        0 <= k <= s.len(),
        forall|j: int| 0 <= j < k ==> s[j] == 0,
        k < s.len() ==> s[k] != 0,
    ensures
        leading_nuls(s) == k,
    decreases s.len(),
{
    if s.len() == 0 || s[0] != 0 {
    } else {
        let t = s.drop_first();
        assert forall|j: int| 0 <= j < k - 1 implies t[j] == 0 by {
            assert(t[j] == s[j + 1]);
        }
        if k < s.len() {
            assert(t[k - 1] == s[k]);
        }
        lemma_leading_nuls_is(t, k - 1);
    }
}

/// The leading zero bytes are zero bytes, and the byte behind them is none.
pub proof fn lemma_leading_nuls_bounds(s: Seq<u8>)
    ensures
        0 <= leading_nuls(s) <= s.len(),
        forall|j: int| 0 <= j < leading_nuls(s) ==> s[j] == 0,
        leading_nuls(s) < s.len() ==> s[leading_nuls(s)] != 0,
    decreases s.len(),
{
    if s.len() == 0 || s[0] != 0 {
    } else {
        let t = s.drop_first();
        lemma_leading_nuls_bounds(t);
        assert forall|j: int| 0 <= j < leading_nuls(s) implies s[j] == 0 by {
            if j > 0 {
                assert(t[j - 1] == s[j]);
            }
        }
        if leading_nuls(t) < t.len() {
            assert(t[leading_nuls(t)] == s[leading_nuls(t) + 1]);
        }
    }
}

/// Cleans the bytes of an index file: takes off a byte-order mark, then every
/// leading zero byte, and reads the rest as text, replacing what is no
/// valid UTF-8.
pub fn sanitize_index_content(raw: &[u8]) -> (r: String)
    ensures
        r@ == sanitized_text(raw@),
        valid_utf8(sanitized_bytes(raw@)) ==> r@ == decode_utf8(sanitized_bytes(raw@)),
{
    let n = raw.len();
    let bom: usize = if n >= 3 && raw[0] == 0xEF && raw[1] == 0xBB && raw[2] == 0xBF {
        3
    } else {
        0
    };
    let ghost body = without_bom(raw@);
    assert(body =~= raw@.skip(bom as int));
    let mut start: usize = bom;
    while start < n && raw[start] == 0
        invariant
            bom <= start <= n,
            n == raw@.len(),
            forall|j: int| bom <= j < start ==> raw@[j] == 0,
        decreases n - start,
    {
        start += 1;
    }
    proof {
        assert forall|j: int| 0 <= j < start - bom implies body[j] == 0 by {
            assert(body[j] == raw@[bom + j]);
        }
        lemma_leading_nuls_is(body, start - bom);
        assert(sanitized_bytes(raw@) =~= raw@.subrange(start as int, n as int));
    }
    from_utf8_lossy(slice_subrange(raw, start, n))
}

/// A byte-order mark in front of bytes that do not begin with one changes
/// nothing of the cleaned bytes, so nothing of the text that is parsed.
pub proof fn law_bom_prefix_is_ignored(rest: Seq<u8>)
    requires
        !has_bom(rest),
    ensures
        sanitized_bytes(seq![0xEFu8, 0xBBu8, 0xBFu8] + rest) == sanitized_bytes(rest),
        sanitized_text(seq![0xEFu8, 0xBBu8, 0xBFu8] + rest) == sanitized_text(rest),
{
    let raw = seq![0xEFu8, 0xBBu8, 0xBFu8] + rest;
    assert(has_bom(raw));
    assert(raw.skip(3) =~= rest);
}

/// Zero bytes in front of bytes that do not begin with a byte-order mark
/// change nothing of the cleaned bytes, so nothing of the text that is parsed.
pub proof fn law_nul_prefix_is_ignored(nuls: Seq<u8>, rest: Seq<u8>)
    requires
        nuls.len() >= 1,
        forall|i: int| 0 <= i < nuls.len() ==> nuls[i] == 0,
        !has_bom(rest),
    ensures
        sanitized_bytes(nuls + rest) == sanitized_bytes(rest),
        sanitized_text(nuls + rest) == sanitized_text(rest),
{
    let raw = nuls + rest;
    assert(raw[0] == nuls[0]);
    assert(!has_bom(raw));
    lemma_leading_nuls_bounds(rest);
    let k = leading_nuls(rest);
    assert forall|j: int| 0 <= j < nuls.len() + k implies raw[j] == 0 by {
        if j < nuls.len() {
            assert(raw[j] == nuls[j]);
        } else {
            assert(raw[j] == rest[j - nuls.len()]);
        }
    }
    if nuls.len() + k < raw.len() {
        assert(raw[nuls.len() + k] == rest[k]);
    }
    lemma_leading_nuls_is(raw, nuls.len() + k);
    assert(raw.skip(nuls.len() + k) =~= rest.skip(k));
}

/// The bytes of an optional slice.
pub open spec fn opt_bytes(raw: Option<&[u8]>) -> Option<Seq<u8>> {
    match raw {
        Some(b) => Some(b@),
        None => None,
    }
}

/// Nothing can be parsed from the index file: it is absent, empty, or
/// blank once cleaned.
pub open spec fn index_unusable(raw: Option<Seq<u8>>) -> bool {
    match raw {
        None => true,
        Some(b) => b.len() == 0 || is_blank(sanitized_text(b)),
    }
}

/// What reading the index file comes to.
#[derive(Debug)]
pub enum IndexLoad {
    /// The file held this index.
    Loaded(AccountIndex),
    /// The index has to be rebuilt from the accounts' records. `corrupt`
    /// holds the bytes of a file that could not be parsed: they are to be
    /// kept in a backup file.
    Rebuild { corrupt: Option<Vec<u8>> },
}

/// The mathematical view of [`IndexLoad`].
pub enum IndexLoadView {
    Loaded(AccountIndex),
    Rebuild { corrupt: Option<Seq<u8>> },
}

impl View for IndexLoad {
    type V = IndexLoadView;

    open spec fn view(&self) -> IndexLoadView {
        match self {
            IndexLoad::Loaded(index) => IndexLoadView::Loaded(*index),
            IndexLoad::Rebuild { corrupt: Some(bytes) } => IndexLoadView::Rebuild {
                corrupt: Some(bytes@),
            },
            IndexLoad::Rebuild { corrupt: None } => IndexLoadView::Rebuild { corrupt: None },
        }
    }
}

/// What reading the index file comes to. An absent, empty or blank file
/// asks for a rebuild without backup. Any other file gives the index that
/// the parser read, or asks for a rebuild with a backup of exactly its bytes.
pub open spec fn load_outcome(raw: Option<Seq<u8>>, parsed: Option<AccountIndex>) -> IndexLoadView {
    if index_unusable(raw) {
        IndexLoadView::Rebuild { corrupt: None }
    } else {
        match parsed {
            Some(index) => IndexLoadView::Loaded(index),
            None => IndexLoadView::Rebuild { corrupt: raw },
        }
    }
}

/// Decides what reading the index file comes to. `raw` holds the bytes of
/// the file, or nothing if there is no file; `parsed` is what the parser
/// made of the cleaned text of `raw`, or nothing if it failed.
/// See [`load_outcome`].
pub fn load_account_index(raw: Option<&[u8]>, parsed: Option<AccountIndex>) -> (r: IndexLoad)
    ensures
        r@ == load_outcome(opt_bytes(raw), parsed),
{
    match raw {
        None => IndexLoad::Rebuild { corrupt: None },
        Some(bytes) => {
            if bytes.len() == 0 {
                return IndexLoad::Rebuild { corrupt: None };
            }
            let text = sanitize_index_content(bytes);
            if str_is_blank(text.as_str()) {
                return IndexLoad::Rebuild { corrupt: None };
            }
            match parsed {
                Some(index) => IndexLoad::Loaded(index),
                None => IndexLoad::Rebuild { corrupt: Some(slice_to_vec(bytes)) },
            }
        },
    }
}

/// An index file that begins with a byte-order mark and can be parsed
/// loads as the same file without the mark does.
pub proof fn law_bom_prefixed_index_loads_alike(rest: Seq<u8>, parsed: Option<AccountIndex>)
    requires
        rest.len() > 0,
        !has_bom(rest),
        parsed is Some,
    ensures
        load_outcome(Some(seq![0xEFu8, 0xBBu8, 0xBFu8] + rest), parsed) == load_outcome(
            Some(rest),
            parsed,
        ),
{
    law_bom_prefix_is_ignored(rest);
}

/// An index file that begins with zero bytes and can be parsed loads as
/// the same file without them does.
pub proof fn law_nul_prefixed_index_loads_alike(
    nuls: Seq<u8>,
    rest: Seq<u8>,
    parsed: Option<AccountIndex>,
)
    requires
        nuls.len() >= 1,
        forall|i: int| 0 <= i < nuls.len() ==> nuls[i] == 0,
        rest.len() > 0,
        !has_bom(rest),
        parsed is Some,
    ensures
        load_outcome(Some(nuls + rest), parsed) == load_outcome(Some(rest), parsed),
{
    law_nul_prefix_is_ignored(nuls, rest);
}

/// An index file that is not blank and cannot be parsed asks for a
/// rebuild, with a backup of exactly its bytes.
pub proof fn law_unparsable_index_is_backed_up(raw: Seq<u8>)
    requires
        !index_unusable(Some(raw)),
    ensures
        load_outcome(Some(raw), None) == (IndexLoadView::Rebuild { corrupt: Some(raw) }),
{
}

/// `a` comes before `b` in the order of strings: at the first position where
/// they differ `a` has the smaller character, or `a` ends there and `b` does not.
pub open spec fn lex_lt(a: Seq<char>, b: Seq<char>) -> bool
    decreases a.len(),
{
    if b.len() == 0 {
        false
    } else if a.len() == 0 {
        true
    } else if a[0] != b[0] {
        a[0] < b[0]
    } else {
        lex_lt(a.drop_first(), b.drop_first())
    }
}

/// Tells whether `a` comes before `b` in the order of strings.
pub fn str_lt(a: &str, b: &str) -> (r: bool)
    ensures
        r == lex_lt(a@, b@),
{
    let x = chars_of(a);
    let y = chars_of(b);
    let mut i: usize = 0;
    assert(x@.skip(0) =~= x@);
    assert(y@.skip(0) =~= y@);
    loop
        invariant
            i <= x.len(),
            i <= y.len(),
            x@ == a@,
            y@ == b@,
            lex_lt(a@, b@) == lex_lt(x@.skip(i as int), y@.skip(i as int)),
        decreases x.len() - i,
    {
        if i == y.len() {
            return false;
        }
        if i == x.len() {
            return true;
        }
        if x[i] != y[i] {
            return x[i] < y[i];
        }
        assert(x@.skip(i as int).drop_first() =~= x@.skip(i + 1));
        assert(y@.skip(i as int).drop_first() =~= y@.skip(i + 1));
        i += 1;
    }
}

/// In a rebuilt index `x` stands before `y`: it was used later, or at the
/// same time and its email comes first.
pub open spec fn stands_before(x: AccountSummaryView, y: AccountSummaryView) -> bool {
    x.last_used > y.last_used || (x.last_used == y.last_used && lex_lt(x.email, y.email))
}

/// Tells whether `x` stands before `y` in a rebuilt index.
pub fn summary_stands_before(x: &AccountSummary, y: &AccountSummary) -> (r: bool)
    ensures
        r == stands_before(x@, y@),
{
    x.last_used > y.last_used || (x.last_used == y.last_used && str_lt(
        x.email.as_str(),
        y.email.as_str(),
    ))
}

/// Where `x` goes into the ordered list `t`: before the first entry that it
/// stands before, so behind every entry of its own rank.
pub open spec fn insert_position(t: Seq<AccountSummaryView>, x: AccountSummaryView) -> int
    decreases t.len(),
{
    if t.len() == 0 || stands_before(x, t[0]) {
        0
    } else {
        1 + insert_position(t.drop_first(), x)
    }
}

/// The summaries ordered by last use, latest first, then by email; entries
/// of one rank keep the order in which they came.
pub open spec fn sort_summaries(s: Seq<AccountSummaryView>) -> Seq<AccountSummaryView>
    decreases s.len(),
{
    if s.len() == 0 {
        Seq::empty()
    } else {
        let t = sort_summaries(s.drop_last());
        t.insert(insert_position(t, s.last()), s.last())
    }
}

/// The summaries of a list of accounts.
pub open spec fn projections(s: Seq<AccountView>) -> Seq<AccountSummaryView> {
    s.map_values(|a: AccountView| projection(a))
}

/// The index that is rebuilt from the accounts' records: their summaries in
/// order, the first of them active.
pub open spec fn rebuilt_index(details: Seq<AccountView>) -> AccountIndexView {
    let sorted = sort_summaries(projections(details));
    AccountIndexView {
        version: INDEX_VERSION@,
        accounts: sorted,
        current_account_id: if sorted.len() > 0 {
            Some(sorted[0].id)
        } else {
            None
        },
        extra: Seq::empty(),
    }
}

/// What the position of insertion is: the new entry stands before none of the
/// entries in front of it, and before the entry at it.
pub proof fn lemma_insert_position_bounds(t: Seq<AccountSummaryView>, x: AccountSummaryView)
    ensures
        0 <= insert_position(t, x) <= t.len(),
        forall|j: int| 0 <= j < insert_position(t, x) ==> !stands_before(x, t[j]),
        insert_position(t, x) < t.len() ==> stands_before(x, t[insert_position(t, x)]),
    decreases t.len(),
{
    if t.len() == 0 || stands_before(x, t[0]) {
    } else {
        let u = t.drop_first();
        lemma_insert_position_bounds(u, x);
        assert forall|j: int| 0 <= j < insert_position(t, x) implies !stands_before(x, t[j]) by {
            if j > 0 {
                assert(u[j - 1] == t[j]);
            }
        }
        if insert_position(u, x) < u.len() {
            assert(u[insert_position(u, x)] == t[insert_position(u, x) + 1]);
        }
    }
}

/// A position in front of which the new entry stands before no entry, and at
/// which it stands before the entry, is the position of insertion.
pub proof fn lemma_insert_position_is(t: Seq<AccountSummaryView>, x: AccountSummaryView, p: int)
    requires
        0 <= p <= t.len(),
        forall|j: int| 0 <= j < p ==> !stands_before(x, t[j]),
        p < t.len() ==> stands_before(x, t[p]),
    ensures
        insert_position(t, x) == p,
    decreases t.len(),
{
    if t.len() == 0 || stands_before(x, t[0]) {
    } else {
        let u = t.drop_first();
        assert forall|j: int| 0 <= j < p - 1 implies !stands_before(x, u[j]) by {
            assert(u[j] == t[j + 1]);
        }
        if p < t.len() {
            assert(u[p - 1] == t[p]);
        }
        lemma_insert_position_is(u, x, p - 1);
    }
}

/// Rebuilds the index from the accounts' records: one summary for each,
/// ordered by last use, latest first, then by email, and the first one active.
pub fn rebuild_index_from_accounts(details: &Vec<Account>) -> (r: AccountIndex)
    ensures
        r@ == rebuilt_index(accounts_view(details@)),
{
    let mut sorted: Vec<AccountSummary> = Vec::new();
    let ghost all = projections(accounts_view(details@));
    let mut i: usize = 0;
    assert(all.take(0) =~= Seq::empty());
    assert(summaries_view(sorted@) =~= Seq::empty());
    while i < details.len()
        invariant
            i <= details.len(),
            all == projections(accounts_view(details@)),
            summaries_view(sorted@) == sort_summaries(all.take(i as int)),
            sorted.len() == i,
        decreases details.len() - i,
    {
        let x = summary_of(&details[i]);
        let ghost t = summaries_view(sorted@);
        let mut p: usize = 0;
        while p < sorted.len() && !summary_stands_before(&x, &sorted[p])
            invariant
                p <= sorted.len(),
                t == summaries_view(sorted@),
                forall|j: int| 0 <= j < p ==> !stands_before(x@, t[j]),
            decreases sorted.len() - p,
        {
            p += 1;
        }
        proof {
            lemma_insert_position_is(t, x@, p as int);
            let next = all.take(i + 1);
            assert(next.drop_last() =~= all.take(i as int));
            assert(next.last() == projection(details@[i as int]@));
        }
        sorted.insert(p, x);
        assert(summaries_view(sorted@) =~= t.insert(p as int, x@));
        i += 1;
    }
    assert(all.take(details.len() as int) =~= all);
    let current = if sorted.len() > 0 {
        Some(sorted[0].id.clone())
    } else {
        None
    };
    let r = AccountIndex {
        version: owned(INDEX_VERSION),
        accounts: sorted,
        current_account_id: current,
        extra: Vec::new(),
    };
    assert(pairs_view(r.extra@) =~= Seq::empty());
    r
}

/// No string comes before itself.
pub proof fn lemma_lex_lt_irreflexive(a: Seq<char>)
    ensures
        !lex_lt(a, a),
    decreases a.len(),
{
    if a.len() > 0 {
        lemma_lex_lt_irreflexive(a.drop_first());
    }
}

/// The order of strings is transitive.
pub proof fn lemma_lex_lt_transitive(a: Seq<char>, b: Seq<char>, c: Seq<char>)
    requires
        lex_lt(a, b),
        lex_lt(b, c),
    ensures
        lex_lt(a, c),
    decreases a.len(),
{
    if a.len() > 0 && a[0] == b[0] && b[0] == c[0] {
        lemma_lex_lt_transitive(a.drop_first(), b.drop_first(), c.drop_first());
    }
}

/// Standing before is transitive, and no summary stands before itself.
pub proof fn lemma_stands_before_is_strict(
    x: AccountSummaryView,
    y: AccountSummaryView,
    z: AccountSummaryView,
)
    ensures
        !stands_before(x, x),
        stands_before(x, y) && stands_before(y, z) ==> stands_before(x, z),
{
    lemma_lex_lt_irreflexive(x.email);
    if stands_before(x, y) && stands_before(y, z) {
        if x.last_used == y.last_used && y.last_used == z.last_used {
            lemma_lex_lt_transitive(x.email, y.email, z.email);
        }
    }
}

/// No summary stands before one that precedes it in the list.
pub open spec fn is_ordered(s: Seq<AccountSummaryView>) -> bool {
    forall|i: int, j: int| 0 <= i < j < s.len() ==> !stands_before(#[trigger] s[j], #[trigger] s[i])
}

/// The summaries of a rebuilt index are in order: by last use, latest
/// first, and among those of one time by email.
pub proof fn law_rebuilt_index_is_ordered(s: Seq<AccountSummaryView>)
    ensures
        is_ordered(sort_summaries(s)),
    decreases s.len(),
{
    if s.len() > 0 {
        let t = sort_summaries(s.drop_last());
        let x = s.last();
        let p = insert_position(t, x);
        let u = t.insert(p, x);
        law_rebuilt_index_is_ordered(s.drop_last());
        lemma_insert_position_bounds(t, x);
        t.insert_ensures(p, x);
        assert forall|i: int, j: int| 0 <= i < j < u.len() implies !stands_before(
            #[trigger] u[j],
            #[trigger] u[i],
        ) by {
            if j < p {
                assert(u[i] == t[i] && u[j] == t[j]);
            } else if j == p {
                assert(u[i] == t[i]);
            } else if i == p {
                assert(u[j] == t[j - 1]);
                lemma_stands_before_is_strict(t[j - 1], x, t[p]);
                lemma_stands_before_is_strict(x, t[p], x);
                if j - 1 > p {
                    assert(!stands_before(t[j - 1], t[p]));
                }
            } else if i < p {
                assert(u[i] == t[i] && u[j] == t[j - 1]);
            } else {
                assert(u[i] == t[i - 1] && u[j] == t[j - 1]);
            }
        }
    }
}

/// A rebuilt index lists every account once for each of its records:
/// ordering the summaries neither loses nor doubles one.
pub proof fn law_rebuilt_index_keeps_every_account(s: Seq<AccountSummaryView>)
    ensures
        sort_summaries(s).to_multiset() == s.to_multiset(),
        sort_summaries(s).len() == s.len(),
    decreases s.len(),
{
    if s.len() > 0 {
        let head = s.drop_last();
        let t = sort_summaries(head);
        let x = s.last();
        law_rebuilt_index_keeps_every_account(head);
        lemma_insert_position_bounds(t, x);
        to_multiset_insert(t, insert_position(t, x), x);
        to_multiset_build(head, x);
        assert(head.push(x) =~= s);
        t.insert_ensures(insert_position(t, x), x);
    } else {
        assert(s =~= Seq::empty());
    }
}

/// An index that is rebuilt from records of which no two share an email is
/// well formed.
pub proof fn law_rebuilt_index_is_well_formed(details: Seq<AccountView>)
    requires
        emails_unique(projections(details)),
    ensures
        index_wf(rebuilt_index(details)),
{
    let s = projections(details);
    let t = sort_summaries(s);
    law_rebuilt_index_keeps_every_account(s);
    assert(s.no_duplicates());
    s.lemma_multiset_has_no_duplicates();
    t.lemma_multiset_has_no_duplicates_conv();
    assert forall|i: int, j: int| 0 <= i < t.len() && 0 <= j < t.len() && i != j implies (
    #[trigger] t[i]).email != (#[trigger] t[j]).email by {
        to_multiset_contains(t, t[i]);
        to_multiset_contains(t, t[j]);
        to_multiset_contains(s, t[i]);
        to_multiset_contains(s, t[j]);
        assert(t.contains(t[i]) && t.contains(t[j]));
        let a = choose|a: int| 0 <= a < s.len() && s[a] == t[i];
        let b = choose|b: int| 0 <= b < s.len() && s[b] == t[j];
        assert(t[i] != t[j]);
    }
    if t.len() > 0 {
        assert(t[0].id == rebuilt_index(details).current_account_id->0);
    }
}

/// Of two different strings one comes before the other.
pub proof fn lemma_lex_lt_total(a: Seq<char>, b: Seq<char>)
    requires
        a != b,
    ensures
        lex_lt(a, b) || lex_lt(b, a),
    decreases a.len(),
{
    if a.len() == 0 || b.len() == 0 {
        if a.len() == 0 && b.len() == 0 {
            assert(a =~= b);
        }
    } else if a[0] == b[0] {
        if a.drop_first() == b.drop_first() {
            assert(a =~= seq![a[0]] + a.drop_first());
            assert(b =~= seq![b[0]] + b.drop_first());
        }
        lemma_lex_lt_total(a.drop_first(), b.drop_first());
    }
}

/// No two summaries share both the time of their last use and their email.
pub open spec fn ranks_differ(s: Seq<AccountSummaryView>) -> bool {
    forall|i: int, j: int|
        0 <= i < s.len() && 0 <= j < s.len() && i != j ==> (#[trigger] s[i]).last_used != (
        #[trigger] s[j]).last_used || s[i].email != s[j].email
}

/// Two lists in order that hold the same summaries, no two of one rank,
/// are the same list.
pub proof fn lemma_ordered_is_unique(x: Seq<AccountSummaryView>, y: Seq<AccountSummaryView>)
    requires
        is_ordered(x),
        is_ordered(y),
        x.to_multiset() == y.to_multiset(),
        ranks_differ(x),
    ensures
        x == y,
    decreases x.len(),
{
    broadcast use vstd::multiset::group_multiset_axioms;

    to_multiset_len(x);
    to_multiset_len(y);
    if x.len() == 0 {
        assert(x =~= y);
    } else {
        let x0 = x[0];
        let y0 = y[0];
        to_multiset_contains(x, x0);
        to_multiset_contains(y, x0);
        to_multiset_contains(x, y0);
        to_multiset_contains(y, y0);
        assert(x.contains(x0) && y.contains(y0));
        let j = choose|j: int| 0 <= j < y.len() && y[j] == x0;
        let i = choose|i: int| 0 <= i < x.len() && x[i] == y0;
        if x0 != y0 {
            assert(!stands_before(y[j], y[0]));
            assert(!stands_before(x[i], x[0]));
            assert(x[0].last_used != x[i].last_used || x[0].email != x[i].email);
            if x0.last_used == y0.last_used {
                lemma_lex_lt_total(x0.email, y0.email);
            }
        }
        let tx = x.drop_first();
        let ty = y.drop_first();
        assert(x0 == y0);
        assert(tx.to_multiset() == ty.to_multiset()) by {
            to_multiset_remove(x, 0);
            to_multiset_remove(y, 0);
            assert(x.remove(0) =~= tx);
            assert(y.remove(0) =~= ty);
        }
        assert forall|a: int, b: int| 0 <= a < b < tx.len() implies !stands_before(
            #[trigger] tx[b],
            #[trigger] tx[a],
        ) by {
            assert(tx[a] == x[a + 1] && tx[b] == x[b + 1]);
        }
        assert forall|a: int, b: int| 0 <= a < b < ty.len() implies !stands_before(
            #[trigger] ty[b],
            #[trigger] ty[a],
        ) by {
            assert(ty[a] == y[a + 1] && ty[b] == y[b + 1]);
        }
        assert forall|a: int, b: int| 0 <= a < tx.len() && 0 <= b < tx.len() && a != b implies (
        #[trigger] tx[a]).last_used != (#[trigger] tx[b]).last_used || tx[a].email
            != tx[b].email by {
            assert(tx[a] == x[a + 1] && tx[b] == x[b + 1]);
        }
        lemma_ordered_is_unique(tx, ty);
        assert(x =~= seq![x0] + tx);
        assert(y =~= seq![y0] + ty);
    }
}

/// The same summaries in another order, no two of them of one rank, give
/// the same list in order.
pub proof fn law_order_of_summaries_does_not_matter(
    s1: Seq<AccountSummaryView>,
    s2: Seq<AccountSummaryView>,
)
    requires
        s1.to_multiset() == s2.to_multiset(),
        ranks_differ(s1),
    ensures
        sort_summaries(s1) == sort_summaries(s2),
{
    let t1 = sort_summaries(s1);
    let t2 = sort_summaries(s2);
    law_rebuilt_index_is_ordered(s1);
    law_rebuilt_index_is_ordered(s2);
    law_rebuilt_index_keeps_every_account(s1);
    law_rebuilt_index_keeps_every_account(s2);
    assert(s1.no_duplicates());
    s1.lemma_multiset_has_no_duplicates();
    t1.lemma_multiset_has_no_duplicates_conv();
    assert forall|i: int, j: int| 0 <= i < t1.len() && 0 <= j < t1.len() && i != j implies (
    #[trigger] t1[i]).last_used != (#[trigger] t1[j]).last_used || t1[i].email
        != t1[j].email by {
        to_multiset_contains(t1, t1[i]);
        to_multiset_contains(t1, t1[j]);
        to_multiset_contains(s1, t1[i]);
        to_multiset_contains(s1, t1[j]);
        assert(t1.contains(t1[i]) && t1.contains(t1[j]));
        let a = choose|a: int| 0 <= a < s1.len() && s1[a] == t1[i];
        let b = choose|b: int| 0 <= b < s1.len() && s1[b] == t1[j];
        assert(t1[i] != t1[j]);
    }
    lemma_ordered_is_unique(t1, t2);
}

/// The rebuilt index does not depend on the order in which the records
/// are read, where no two of them share both last use and email.
pub proof fn law_rebuilt_index_ignores_record_order(a: Seq<AccountView>, b: Seq<AccountView>)
    requires
        projections(a).to_multiset() == projections(b).to_multiset(),
        ranks_differ(projections(a)),
    ensures
        rebuilt_index(a) == rebuilt_index(b),
{
    law_order_of_summaries_does_not_matter(projections(a), projections(b));
}

} // verus!
