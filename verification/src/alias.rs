//! The alias index and the alias-derivation policy.
//!
//! An alias is a shareable string token that resolves to the metadata of
//! exactly one file request. It is derived from a seed of random bytes
//! that the caller draws from its environment's random source: `"file-"`
//! followed by the seed in hexadecimal. The derivation is injective in
//! the seed (proved below), so a collision at registration time can only
//! mean the very same bytes were drawn before; the service checks the
//! index before registering and reports a collision instead of
//! overwriting, which would silently redirect an existing shareable
//! link.

use vstd::prelude::*;
use vstd::hash_map::StringHashMap;
use crate::store::FileMetadata;
use crate::store::FileMetadataView;

verus! {

/// The hexadecimal digit character for a value below 16.
pub open spec fn hex_char(n: u64) -> char {
    if n == 0 {
        '0'
    } else if n == 1 {
        '1'
    } else if n == 2 {
        '2'
    } else if n == 3 {
        '3'
    } else if n == 4 {
        '4'
    } else if n == 5 {
        '5'
    } else if n == 6 {
        '6'
    } else if n == 7 {
        '7'
    } else if n == 8 {
        '8'
    } else if n == 9 {
        '9'
    } else if n == 10 {
        'a'
    } else if n == 11 {
        'b'
    } else if n == 12 {
        'c'
    } else if n == 13 {
        'd'
    } else if n == 14 {
        'e'
    } else {
        'f'
    }
}

/// The hexadecimal digits of a byte sequence: two characters per byte,
/// most significant digit first, in byte order.
pub open spec fn hex_bytes(seed: Seq<u8>) -> Seq<char>
    decreases seed.len(),
{
    if seed.len() == 0 {
        Seq::empty()
    } else {
        hex_bytes(seed.drop_last()) + seq![
            hex_char((seed.last() >> 4) as u64),
            hex_char((seed.last() & 0xf) as u64),
        ]
    }
}

/// The alias derived for a seed of random bytes: `"file-"` followed by
/// the seed in hexadecimal.
pub open spec fn alias_of(seed: Seq<u8>) -> Seq<char> {
    "file-"@ + hex_bytes(seed)
}

/// Both hexadecimal digits of a byte lie below 16.
proof fn lemma_byte_digits_bound(x: u8)
    ensures
        ((x >> 4) as u64) < 16,
        ((x & 0xf) as u64) < 16,
{
    assert(((x >> 4) as u64) < 16 && ((x & 0xf) as u64) < 16) by (bit_vector);
}

/// A byte is determined by its two hexadecimal digits.
proof fn lemma_byte_from_digits(x: u8, y: u8)
    requires
        (x >> 4) as u64 == (y >> 4) as u64,
        (x & 0xf) as u64 == (y & 0xf) as u64,
    ensures
        x == y,
{
    assert(x == y) by (bit_vector)
        requires
            (x >> 4) as u64 == (y >> 4) as u64,
            (x & 0xf) as u64 == (y & 0xf) as u64,
    ;
}

/// Distinct values below 16 get distinct hexadecimal digit characters.
proof fn lemma_hex_char_injective(m: u64, n: u64)
    requires
        m < 16,
        n < 16,
        hex_char(m) == hex_char(n),
    ensures
        m == n,
{
}

/// A seed's hexadecimal form has two characters per byte.
proof fn lemma_hex_bytes_len(seed: Seq<u8>)
    ensures
        hex_bytes(seed).len() == 2 * seed.len(),
    decreases seed.len(),
{
    if seed.len() > 0 {
        lemma_hex_bytes_len(seed.drop_last());
    }
}

/// Alias derivation is injective: distinct seeds always derive distinct
/// aliases, so an alias collision can only mean that the very same bytes
/// were drawn before.
pub proof fn lemma_alias_of_injective(a: Seq<u8>, b: Seq<u8>)
    requires
        alias_of(a) == alias_of(b),
    ensures
        a == b,
    decreases a.len(),
{
    reveal_strlit("file-");
    lemma_hex_bytes_len(a);
    lemma_hex_bytes_len(b);
    assert("file-"@.len() == 5);
    assert(alias_of(a).len() == 5 + 2 * a.len());
    assert(alias_of(b).len() == 5 + 2 * b.len());
    assert(a.len() == b.len());
    assert forall|i: int|
        0 <= i < hex_bytes(a).len() implies hex_bytes(a)[i] == hex_bytes(b)[i] by {
        assert(alias_of(a)[5 + i] == hex_bytes(a)[i]);
        assert(alias_of(b)[5 + i] == hex_bytes(b)[i]);
    }
    assert(hex_bytes(a) =~= hex_bytes(b));
    if a.len() == 0 {
        assert(a =~= b);
    } else {
        let n = a.len() as int;
        lemma_hex_bytes_len(a.drop_last());
        lemma_hex_bytes_len(b.drop_last());
        let ha = (a.last() >> 4) as u64;
        let la = (a.last() & 0xf) as u64;
        let hb = (b.last() >> 4) as u64;
        let lb = (b.last() & 0xf) as u64;
        assert(hex_bytes(a)[2 * n - 2] == hex_char(ha));
        assert(hex_bytes(a)[2 * n - 1] == hex_char(la));
        assert(hex_bytes(b)[2 * n - 2] == hex_char(hb));
        assert(hex_bytes(b)[2 * n - 1] == hex_char(lb));
        lemma_byte_digits_bound(a.last());
        lemma_byte_digits_bound(b.last());
        lemma_hex_char_injective(ha, hb);
        lemma_hex_char_injective(la, lb);
        lemma_byte_from_digits(a.last(), b.last());
        assert forall|i: int|
            0 <= i < hex_bytes(a.drop_last()).len() implies hex_bytes(a.drop_last())[i]
            == hex_bytes(b.drop_last())[i] by {
            assert(hex_bytes(a)[i] == hex_bytes(a.drop_last())[i]);
            assert(hex_bytes(b)[i] == hex_bytes(b.drop_last())[i]);
        }
        assert(hex_bytes(a.drop_last()) =~= hex_bytes(b.drop_last()));
        assert(alias_of(a.drop_last()) =~= alias_of(b.drop_last()));
        lemma_alias_of_injective(a.drop_last(), b.drop_last());
        assert forall|i: int| 0 <= i < a.len() implies a[i] == b[i] by {
            if i < a.len() - 1 {
                assert(a[i] == a.drop_last()[i]);
                assert(b[i] == b.drop_last()[i]);
            } else {
                assert(a[i] == a.last());
                assert(b[i] == b.last());
            }
        }
        assert(a =~= b);
    }
}

/// The string of one hexadecimal digit character.
fn hex_str(n: u64) -> (r: &'static str)
    requires
        n < 16,
    ensures
        r@ == seq![hex_char(n)],
{
    proof {
        reveal_strlit("0");
        reveal_strlit("1");
        reveal_strlit("2");
        reveal_strlit("3");
        reveal_strlit("4");
        reveal_strlit("5");
        reveal_strlit("6");
        reveal_strlit("7");
        reveal_strlit("8");
        reveal_strlit("9");
        reveal_strlit("a");
        reveal_strlit("b");
        reveal_strlit("c");
        reveal_strlit("d");
        reveal_strlit("e");
        reveal_strlit("f");
    }
    let r = if n == 0 {
        "0"
    } else if n == 1 {
        "1"
    } else if n == 2 {
        "2"
    } else if n == 3 {
        "3"
    } else if n == 4 {
        "4"
    } else if n == 5 {
        "5"
    } else if n == 6 {
        "6"
    } else if n == 7 {
        "7"
    } else if n == 8 {
        "8"
    } else if n == 9 {
        "9"
    } else if n == 10 {
        "a"
    } else if n == 11 {
        "b"
    } else if n == 12 {
        "c"
    } else if n == 13 {
        "d"
    } else if n == 14 {
        "e"
    } else {
        "f"
    };
    proof {
        assert(r@ =~= seq![hex_char(n)]);
    }
    r
}

/// Derives the alias candidate for a seed of random bytes: `"file-"`
/// followed by the seed in hexadecimal. Distinct seeds always derive
/// distinct aliases (see [`lemma_alias_of_injective`]).
pub fn get_file_alias(seed: &[u8]) -> (r: String)
    ensures
        r@ == alias_of(seed@),
{
    let mut alias = String::from_str("file-");
    let mut i: usize = 0;
    while i < seed.len()
        invariant
            i <= seed.len(),
            alias@ == "file-"@ + hex_bytes(seed@.subrange(0, i as int)),
        decreases seed.len() - i,
    {
        let byte = seed[i];
        let hi: u64 = (byte >> 4) as u64;
        let lo: u64 = (byte & 0xf) as u64;
        proof {
            lemma_byte_digits_bound(byte);
        }
        alias.append(hex_str(hi));
        alias.append(hex_str(lo));
        proof {
            let taken = seed@.subrange(0, (i + 1) as int);
            assert(taken.drop_last() =~= seed@.subrange(0, i as int));
            assert(alias@ =~= "file-"@ + hex_bytes(taken));
        }
        i = i + 1;
    }
    proof {
        assert(seed@.subrange(0, seed@.len() as int) =~= seed@);
    }
    alias
}

/// Maps each issued alias to a copy of the metadata of the file request
/// it was issued for. Entries are never mutated or deleted.
pub struct AliasIndex {
    aliases: StringHashMap<FileMetadata>,
}

impl View for AliasIndex {
    type V = Map<Seq<char>, FileMetadataView>;

    closed spec fn view(&self) -> Map<Seq<char>, FileMetadataView> {
        self.aliases@.map_values(|metadata: FileMetadata| metadata@)
    }
}

impl AliasIndex {
    /// An empty index: no alias resolves.
    pub fn new() -> (r: Self)
        ensures
            r@ == Map::<Seq<char>, FileMetadataView>::empty(),
    {
        let index = AliasIndex { aliases: StringHashMap::new() };
        proof {
            assert(index@ =~= Map::<Seq<char>, FileMetadataView>::empty());
        }
        index
    }

    /// Whether the alias was already issued. The uniqueness check a
    /// candidate must pass before it is accepted.
    pub fn contains(&self, alias: &str) -> (r: bool)
        ensures
            r == self@.contains_key(alias@),
    {
        self.aliases.contains_key(alias)
    }

    /// Records that `alias` designates the file with the given metadata.
    /// The alias must be fresh: an issued alias is never redirected to
    /// other metadata.
    pub fn register(&mut self, alias: String, metadata: FileMetadata)
        requires
            !old(self)@.contains_key(alias@),
        ensures
            final(self)@ == old(self)@.insert(alias@, metadata@),
    {
        let ghost prior = self.aliases@;
        let ghost key = alias@;
        let ghost meta = metadata@;
        self.aliases.insert(alias, metadata);
        proof {
            assert(self@ =~= prior.map_values(|m: FileMetadata| m@).insert(key, meta));
        }
    }

    /// Looks an alias up; `None` when the alias was never issued.
    pub fn resolve(&self, alias: &str) -> (r: Option<&FileMetadata>)
        ensures
            match r {
                Some(metadata) => self@.contains_key(alias@)
                    && metadata@ == self@[alias@],
                None => !self@.contains_key(alias@),
            },
    {
        self.aliases.get(alias)
    }
}

} // verus!
