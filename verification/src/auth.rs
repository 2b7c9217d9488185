//! Token authentication. A token's plaintext key is produced exactly once, at
//! creation, from caller-supplied entropy; the store persists only a one-way
//! derivation of it, with the owner id and a human-readable label, and never
//! the plaintext. Validation recomputes the derivation from the presented
//! credential and looks the result up.

use vstd::prelude::*;

use crate::checksum::{digest_str, key_digest};
use crate::error::RegistryError;
use vstd::string::StringExecFns;

verus! {

/// The hexadecimal digit character of `d` (meaningful for `d < 16`).
pub open spec fn hex_char(d: nat) -> char {
    if d < 10 {
        crate::decimal::digit_char(d)
    } else if d == 10 {
        'a'
    } else if d == 11 {
        'b'
    } else if d == 12 {
        'c'
    } else if d == 13 {
        'd'
    } else if d == 14 {
        'e'
    } else {
        'f'
    }
}

/// A byte sequence in lowercase hexadecimal, two characters per byte.
pub open spec fn spec_hex(b: Seq<u8>) -> Seq<char>
    decreases b.len(),
{
    if b.len() == 0 {
        Seq::empty()
    } else {
        spec_hex(b.drop_last()) + seq![
            hex_char((b.last() / 16) as nat),
            hex_char((b.last() % 16) as nat),
        ]
    }
}

/// The hexadecimal form is two characters per byte.
pub proof fn lemma_spec_hex_len(b: Seq<u8>)
    ensures
        spec_hex(b).len() == 2 * b.len(),
    decreases b.len(),
{
    if b.len() > 0 {
        lemma_spec_hex_len(b.drop_last());
    }
}

/// Appends one hexadecimal digit character.
fn push_hex_digit(out: &mut String, d: u8)
    requires
        d < 16,
    ensures
        final (out)@ == old(out)@ + seq![hex_char(d as nat)],
{
    if d < 10 {
        crate::decimal::push_digit(out, d);
    } else if d == 10 {
        proof {
            reveal_strlit("a");
            assert("a"@ =~= seq![hex_char(10)]);
        }
        out.append("a");
    } else if d == 11 {
        proof {
            reveal_strlit("b");
            assert("b"@ =~= seq![hex_char(11)]);
        }
        out.append("b");
    } else if d == 12 {
        proof {
            reveal_strlit("c");
            assert("c"@ =~= seq![hex_char(12)]);
        }
        out.append("c");
    } else if d == 13 {
        proof {
            reveal_strlit("d");
            assert("d"@ =~= seq![hex_char(13)]);
        }
        out.append("d");
    } else if d == 14 {
        proof {
            reveal_strlit("e");
            assert("e"@ =~= seq![hex_char(14)]);
        }
        out.append("e");
    } else {
        proof {
            reveal_strlit("f");
            assert("f"@ =~= seq![hex_char(15)]);
        }
        out.append("f");
    }
}

/// Renders bytes in lowercase hexadecimal.
pub fn hex_string(b: &Vec<u8>) -> (r: String)
    ensures
        r@ == spec_hex(b@),
{
    let n = b.len();
    let mut out = String::new();
    let mut k: usize = 0;
    proof {
        assert(b@.take(0) =~= Seq::<u8>::empty());
    }
    while k < n
        invariant
            n == b@.len(),
            k <= n,
            out@ == spec_hex(b@.take(k as int)),
        decreases n - k,
    {
        let byte = b[k];
        push_hex_digit(&mut out, byte / 16);
        push_hex_digit(&mut out, byte % 16);
        k = k + 1;
        proof {
            assert(b@.take(k as int).drop_last() =~= b@.take(k - 1));
            assert(b@.take(k as int).last() == b@[k - 1]);
            assert(out@ =~= spec_hex(b@.take(k as int)));
        }
    }
    proof {
        assert(b@.take(n as int) =~= b@);
    }
    out
}

/// One persisted token: its id, its owner, its label, and the one-way
/// derivation of its key — never the key itself.
pub struct TokenRecord {
    pub token_id: u64,
    pub user_id: u64,
    pub name: String,
    pub derived: u64,
}

/// The token store, with a counter for the next token id.
pub struct TokenStore {
    pub tokens: Vec<TokenRecord>,
    pub next_id: u64,
}

/// The labels and ids of one user's tokens, in creation order.
pub open spec fn my_token_views(tokens: Seq<TokenRecord>, user_id: u64) -> Seq<(u64, Seq<char>)>
    decreases tokens.len(),
{
    if tokens.len() == 0 {
        Seq::empty()
    } else {
        my_token_views(tokens.drop_last(), user_id) + (if tokens.last().user_id == user_id {
            seq![(tokens.last().token_id, tokens.last().name@)]
        } else {
            Seq::empty()
        })
    }
}

impl TokenStore {
    /// Every token id was handed out once and is below the counter.
    pub open spec fn wf(self) -> bool {
        &&& forall|i: int|
            0 <= i < self.tokens@.len() ==> (#[trigger] self.tokens@[i]).token_id < self.next_id
        &&& forall|i: int, j: int|
            0 <= i < j < self.tokens@.len() ==> (#[trigger] self.tokens@[i]).token_id != (
            #[trigger] self.tokens@[j]).token_id
    }

    /// The position of the token with this id (meaningful when one exists).
    pub open spec fn token_index(self, token_id: u64) -> int {
        choose|i: int|
            0 <= i < self.tokens@.len() && (#[trigger] self.tokens@[i]).token_id == token_id
    }

    /// An empty token store.
    pub fn new() -> (r: TokenStore)
        ensures
            r.wf(),
            r.tokens@.len() == 0,
            r.next_id == 0,
    {
        TokenStore { tokens: Vec::new(), next_id: 0 }
    }

    /// Creates a token for a user: the plaintext key — thirty-two hexadecimal
    /// characters of the sixteen entropy bytes — is returned here and never
    /// again; the store keeps only its derivation, the label and the owner.
    pub fn generate_token(&mut self, user_id: u64, name: String, entropy: &Vec<u8>) -> (r: (
        u64,
        String,
    ))
        requires
            old(self).wf(),
            entropy@.len() == 16,
            old(self).next_id < 0xFFFF_FFFF_FFFF_FFFF,
        ensures
            final (self).wf(),
            r.0 == old(self).next_id,
            r.1@ == spec_hex(entropy@),
            r.1@.len() == 32,
            final (self).next_id == old(self).next_id + 1,
            final (self).tokens@.len() == old(self).tokens@.len() + 1,
            final (self).tokens@.take(old(self).tokens@.len() as int) == old(self).tokens@,
            final (self).tokens@.last().token_id == r.0,
            final (self).tokens@.last().user_id == user_id,
            final (self).tokens@.last().name == name,
            final (self).tokens@.last().derived == key_digest(spec_hex(entropy@)),
    {
        let key = hex_string(entropy);
        let derived = digest_str(key.as_str());
        let token_id = self.next_id;
        self.tokens.push(TokenRecord { token_id, user_id, name, derived });
        self.next_id = self.next_id + 1;
        proof {
            lemma_spec_hex_len(entropy@);
            assert(self.tokens@.take(old(self).tokens@.len() as int) =~= old(self).tokens@);
        }
        (token_id, key)
    }

    /// Maps a presented credential to the owning user, by recomputing the
    /// derivation and looking it up; fails with `Unauthorized` exactly when no
    /// stored token derives from it.
    pub fn authenticate(&self, key: &str) -> (r: Result<u64, RegistryError>)
        ensures
            r is Ok <==> exists|i: int|
                0 <= i < self.tokens@.len() && (#[trigger] self.tokens@[i]).derived == key_digest(
                    key@,
                ),
            r matches Ok(u) ==> exists|i: int|
                0 <= i < self.tokens@.len() && (#[trigger] self.tokens@[i]).derived == key_digest(
                    key@,
                ) && self.tokens@[i].user_id == u,
            r matches Err(e) ==> e is Unauthorized,
    {
        let d = digest_str(key);
        let n = self.tokens.len();
        let mut i: usize = 0;
        while i < n
            invariant
                n == self.tokens@.len(),
                i <= n,
                d == key_digest(key@),
                forall|k: int| 0 <= k < i ==> (#[trigger] self.tokens@[k]).derived != d,
            decreases n - i,
        {
            if self.tokens[i].derived == d {
                return Ok(self.tokens[i].user_id);
            }
            i = i + 1;
        }
        Err(RegistryError::Unauthorized)
    }

    /// The ids and labels of the user's tokens, in creation order.
    pub fn my_tokens(&self, user_id: u64) -> (r: Vec<(u64, String)>)
        ensures
            r@.map_values(|p: (u64, String)| (p.0, p.1@)) == my_token_views(
                self.tokens@,
                user_id,
            ),
    {
        let n = self.tokens.len();
        let mut out: Vec<(u64, String)> = Vec::new();
        let mut k: usize = 0;
        proof {
            assert(self.tokens@.take(0) =~= Seq::<TokenRecord>::empty());
            assert(out@.map_values(|p: (u64, String)| (p.0, p.1@)) =~= my_token_views(
                self.tokens@.take(0),
                user_id,
            ));
        }
        while k < n
            invariant
                n == self.tokens@.len(),
                k <= n,
                out@.map_values(|p: (u64, String)| (p.0, p.1@)) == my_token_views(
                    self.tokens@.take(k as int),
                    user_id,
                ),
            decreases n - k,
        {
            if self.tokens[k].user_id == user_id {
                out.push((self.tokens[k].token_id, self.tokens[k].name.clone()));
            }
            k = k + 1;
            proof {
                assert(self.tokens@.take(k as int).drop_last() =~= self.tokens@.take(k - 1));
                assert(self.tokens@.take(k as int).last() == self.tokens@[k - 1]);
                assert(out@.map_values(|p: (u64, String)| (p.0, p.1@)) =~= my_token_views(
                    self.tokens@.take(k as int),
                    user_id,
                ));
            }
        }
        proof {
            assert(self.tokens@.take(n as int) =~= self.tokens@);
        }
        out
    }

    /// Deletes one of the user's own tokens by id; a token that does not
    /// exist, or belongs to someone else, is `Unauthorized` and nothing
    /// changes.
    pub fn delete_token(&mut self, user_id: u64, token_id: u64) -> (r: Result<
        (),
        RegistryError,
    >)
        requires
            old(self).wf(),
        ensures
            final (self).wf(),
            r is Ok <==> exists|i: int|
                0 <= i < old(self).tokens@.len() && (#[trigger] old(self).tokens@[i]).token_id
                    == token_id && old(self).tokens@[i].user_id == user_id,
            r is Ok ==> final (self).tokens@ == old(self).tokens@.remove(
                old(self).token_index(token_id),
            ),
            r is Err ==> *final (self) == *old(self),
            r matches Err(e) ==> e is Unauthorized,
            final (self).next_id == old(self).next_id,
    {
        let n = self.tokens.len();
        let mut i: usize = 0;
        while i < n
            invariant
                self.wf(),
                *self == *old(self),
                n == self.tokens@.len(),
                i <= n,
                forall|k: int|
                    0 <= k < i ==> !((#[trigger] self.tokens@[k]).token_id == token_id
                        && self.tokens@[k].user_id == user_id),
            decreases n - i,
        {
            if self.tokens[i].token_id == token_id && self.tokens[i].user_id == user_id {
                proof {
                    let j = old(self).token_index(token_id);
                    assert(old(self).tokens@[i as int].token_id == token_id);
                    if j < i {
                        assert(old(self).tokens@[j].token_id != old(
                            self,
                        ).tokens@[i as int].token_id);
                    } else if i < j {
                        assert(old(self).tokens@[i as int].token_id != old(
                            self,
                        ).tokens@[j].token_id);
                    }
                }
                self.tokens.remove(i);
                proof {
                    old(self).tokens@.remove_ensures(i as int);
                    assert(self.wf());
                }
                return Ok(());
            }
            i = i + 1;
        }
        Err(RegistryError::Unauthorized)
    }
}

} // verus!
