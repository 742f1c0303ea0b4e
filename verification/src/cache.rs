use vstd::prelude::*;
use vstd::string::StringSliceAdditionalSpecFns;
use crate::registry::VersionRecord;

verus! {

/// A key with every path separator replaced by the two-byte sequence `||`,
/// so that any key maps to a flat file name.
pub open spec fn escape_bytes(b: Seq<u8>) -> Seq<u8>
    decreases b.len(),
{
    if b.len() == 0 {
        Seq::empty()
    } else if b[0] == 47u8 {
        seq![124u8, 124u8] + escape_bytes(b.drop_first())
    } else {
        seq![b[0]] + escape_bytes(b.drop_first())
    }
}

pub proof fn lemma_escape_concat(x: Seq<u8>, y: Seq<u8>)
    ensures
        escape_bytes(x + y) == escape_bytes(x) + escape_bytes(y),
    decreases x.len(),
{
    if x.len() == 0 {
        assert(x + y =~= y);
        assert(escape_bytes(x) + escape_bytes(y) =~= escape_bytes(y));
    } else {
        assert((x + y).drop_first() =~= x.drop_first() + y);
        assert((x + y)[0] == x[0]);
        assert((x + y).len() > 0);
        lemma_escape_concat(x.drop_first(), y);
        if x[0] == 47u8 {
            assert(escape_bytes(x + y) =~= escape_bytes(x) + escape_bytes(y));
        } else {
            assert(escape_bytes(x + y) =~= escape_bytes(x) + escape_bytes(y));
        }
    }
}

/// Escaping never collides: two distinct keys free of the escape byte `|`
/// map to distinct file names.
pub proof fn lemma_escape_injective(a: Seq<u8>, b: Seq<u8>)
    requires
        forall|i: int| 0 <= i < a.len() ==> a[i] != 124u8,
        forall|i: int| 0 <= i < b.len() ==> b[i] != 124u8,
        escape_bytes(a) == escape_bytes(b),
    ensures
        a == b,
    decreases a.len(),
{
    if a.len() == 0 || b.len() == 0 {
        if a.len() == 0 && b.len() > 0 {
            assert(escape_bytes(b).len() > 0);
        }
        if b.len() == 0 && a.len() > 0 {
            assert(escape_bytes(a).len() > 0);
        }
        assert(a =~= b);
    } else {
        assert(forall|i: int| 0 <= i < a.drop_first().len() ==> a.drop_first()[i] == a[i + 1]);
        assert(forall|i: int| 0 <= i < b.drop_first().len() ==> b.drop_first()[i] == b[i + 1]);
        if a[0] == 47u8 && b[0] == 47u8 {
            assert(escape_bytes(a).skip(2) =~= escape_bytes(a.drop_first()));
            assert(escape_bytes(b).skip(2) =~= escape_bytes(b.drop_first()));
            lemma_escape_injective(a.drop_first(), b.drop_first());
            assert(a =~= seq![a[0]] + a.drop_first());
            assert(b =~= seq![b[0]] + b.drop_first());
        } else if a[0] != 47u8 && b[0] != 47u8 {
            assert(escape_bytes(a)[0] == a[0]);
            assert(escape_bytes(b)[0] == b[0]);
            assert(escape_bytes(a).skip(1) =~= escape_bytes(a.drop_first()));
            assert(escape_bytes(b).skip(1) =~= escape_bytes(b.drop_first()));
            lemma_escape_injective(a.drop_first(), b.drop_first());
            assert(a =~= seq![a[0]] + a.drop_first());
            assert(b =~= seq![b[0]] + b.drop_first());
        } else if a[0] == 47u8 {
            assert(escape_bytes(a)[0] == 124u8);
            assert(escape_bytes(b)[0] == b[0]);
            assert(b[0] != 124u8);
            assert(false);
        } else {
            assert(escape_bytes(a)[0] == a[0]);
            assert(escape_bytes(b)[0] == 124u8);
            assert(a[0] != 124u8);
            assert(false);
        }
    }
}

/// No two distinct keys free of the escape byte share a cache file: the file
/// path is the directory prefix plus the escaped key, and escaping never
/// collides.
pub proof fn lemma_cache_file_injective(a: Seq<u8>, b: Seq<u8>)
    requires
        forall|i: int| 0 <= i < a.len() ==> a[i] != 124u8,
        forall|i: int| 0 <= i < b.len() ==> b[i] != 124u8,
        cache_dir_bytes() + escape_bytes(a) == cache_dir_bytes() + escape_bytes(b),
    ensures
        a == b,
{
    let ea = escape_bytes(a);
    let eb = escape_bytes(b);
    assert((cache_dir_bytes() + ea).skip(24) =~= ea);
    assert((cache_dir_bytes() + eb).skip(24) =~= eb);
    lemma_escape_injective(a, b);
}

/// The bytes of the cache directory's name, followed by a path separator:
/// `.npm_time_machine_cache/`.
pub open spec fn cache_dir_bytes() -> Seq<u8> {
    seq![
        46u8, 110u8, 112u8, 109u8, 95u8, 116u8, 105u8, 109u8, 101u8, 95u8, 109u8, 97u8, 99u8,
        104u8, 105u8, 110u8, 101u8, 95u8, 99u8, 97u8, 99u8, 104u8, 101u8, 47u8,
    ]
}

/// The path (as bytes) of the cache file a key is stored under: the cache
/// directory joined with the escaped key.
pub fn get_cache_file(key: &str) -> (r: Vec<u8>)
    ensures
        r@ == cache_dir_bytes() + escape_bytes(key.spec_bytes()),
{
    let mut r: Vec<u8> = Vec::new();
    r.push(46u8);
    r.push(110u8);
    r.push(112u8);
    r.push(109u8);
    r.push(95u8);
    r.push(116u8);
    r.push(105u8);
    r.push(109u8);
    r.push(101u8);
    r.push(95u8);
    r.push(109u8);
    r.push(97u8);
    r.push(99u8);
    r.push(104u8);
    r.push(105u8);
    r.push(110u8);
    r.push(101u8);
    r.push(95u8);
    r.push(99u8);
    r.push(97u8);
    r.push(99u8);
    r.push(104u8);
    r.push(101u8);
    r.push(47u8);
    proof {
        assert(r@ =~= cache_dir_bytes());
    }
    let bytes = key.as_bytes();
    let mut j: usize = 0;
    proof {
        assert(bytes@.take(0) =~= Seq::<u8>::empty());
        assert(r@ =~= cache_dir_bytes() + escape_bytes(bytes@.take(0)));
    }
    while j < bytes.len()
        invariant
            j <= bytes@.len(),
            bytes@ == key.spec_bytes(),
            r@ == cache_dir_bytes() + escape_bytes(bytes@.take(j as int)),
        decreases bytes@.len() - j,
    {
        let c = bytes[j];
        if c == 47u8 {
            r.push(124u8);
            r.push(124u8);
        } else {
            r.push(c);
        }
        j += 1;
        proof {
            let prev = bytes@.take(j as int - 1);
            let single = seq![bytes@[j as int - 1]];
            assert(bytes@.take(j as int) =~= prev + single);
            lemma_escape_concat(prev, single);
            assert(single.drop_first() =~= Seq::<u8>::empty());
            assert(escape_bytes(Seq::<u8>::empty()) =~= Seq::<u8>::empty());
            assert(escape_bytes(single.drop_first()) =~= Seq::<u8>::empty());
            if bytes@[j as int - 1] == 47u8 {
                assert(escape_bytes(single) =~= seq![124u8, 124u8]);
            } else {
                assert(escape_bytes(single) =~= seq![bytes@[j as int - 1]]);
            }
            assert(r@ =~= cache_dir_bytes() + escape_bytes(bytes@.take(j as int)));
        }
    }
    proof {
        assert(bytes@.take(bytes@.len() as int) =~= bytes@);
    }
    r
}

/// What one load does about the cache, given the memoization switch and what
/// the store holds under the load's key.
pub enum MemoPlan {
    /// Memoization is on and the store holds a value: hand it back, no fetch.
    UseCached(Vec<VersionRecord>),
    /// Fetch; afterwards the result is stored under the key.
    Fetch,
}

pub open spec fn spec_memo_plan(cache_enabled: bool, cached: Option<Vec<VersionRecord>>) -> MemoPlan {
    match cached {
        Some(v) => if cache_enabled {
            MemoPlan::UseCached(v)
        } else {
            MemoPlan::Fetch
        },
        None => MemoPlan::Fetch,
    }
}

/// Decide how a load proceeds: a stored value is used only when memoization
/// is enabled; otherwise the value must be fetched anew.
pub fn memo_plan(cache_enabled: bool, cached: Option<Vec<VersionRecord>>) -> (r: MemoPlan)
    ensures
        r == spec_memo_plan(cache_enabled, cached),
{
    match cached {
        Some(v) => if cache_enabled {
            MemoPlan::UseCached(v)
        } else {
            MemoPlan::Fetch
        },
        None => MemoPlan::Fetch,
    }
}

/// Memoization round trip: once a load has stored its result, a second load
/// of the same key with memoization enabled is served from the store with
/// the identical value and plans no new fetch.
pub proof fn lemma_memo_round_trip(
    store: Map<Seq<char>, Vec<VersionRecord>>,
    key: Seq<char>,
    first: Vec<VersionRecord>,
)
    ensures
        store.insert(key, first)[key] == first,
        spec_memo_plan(true, Some(store.insert(key, first)[key])) == MemoPlan::UseCached(first),
{
}

} // verus!
