//! Game lobbies: the waiting room a game is matched from.
//!
//! A lobby carries its creator, the game kind, an optional password
//! (stored as a short fold-and-hex digest, not a secure hash), and an
//! expiry time.  Matching, storage and expiry sweeps live with the host;
//! here are the lobby record and the pure rules: the password digest and
//! the expiry test.

use vstd::prelude::*;
use vstd::string::StringSliceAdditionalSpecFns;
use crate::types::{GameMode, GameType};

verus! {

#[derive(Debug, Clone, Copy, PartialEq, Eq, Structural)]
pub enum LobbyStatus {
    Open,
    Full,
    Started,
    Cancelled,
    Expired,
}

#[derive(Debug, Clone)]
pub struct GameLobby {
    pub lobby_id: String,
    pub creator: String,
    pub creator_name: String,
    pub game_type: GameType,
    pub game_mode: GameMode,
    pub is_public: bool,
    pub password_hash: Option<String>,
    pub status: LobbyStatus,
    pub time_control: u64,
    pub created_at: u64,
    pub expires_at: u64,
    pub players: Vec<String>,
    pub game_id: Option<String>,
}

/// The fold of a password's bytes from index `i` on, starting from
/// `acc`: multiply by 31 and add each byte, wrapping.
pub open spec fn spec_pass_fold_from(bytes: Seq<u8>, acc: u64, i: int) -> u64
    decreases bytes.len() - i,
{
    if i < 0 || i >= bytes.len() {
        acc
    } else {
        spec_pass_fold_from(bytes, acc.wrapping_mul(31).wrapping_add(bytes[i] as u64), i + 1)
    }
}

/// The hexadecimal digits of `n`, highest first; empty for zero.
pub open spec fn spec_hex_digits(n: int) -> Seq<char>
    decreases n,
{
    if n <= 0 {
        Seq::empty()
    } else {
        spec_hex_digits(n / 16).push(spec_hex_digit_char(n % 16))
    }
}

/// The character for one hexadecimal digit value.
pub open spec fn spec_hex_digit_char(d: int) -> char {
    if d == 0 {
        '0'
    } else if d == 1 {
        '1'
    } else if d == 2 {
        '2'
    } else if d == 3 {
        '3'
    } else if d == 4 {
        '4'
    } else if d == 5 {
        '5'
    } else if d == 6 {
        '6'
    } else if d == 7 {
        '7'
    } else if d == 8 {
        '8'
    } else if d == 9 {
        '9'
    } else if d == 10 {
        'a'
    } else if d == 11 {
        'b'
    } else if d == 12 {
        'c'
    } else if d == 13 {
        'd'
    } else if d == 14 {
        'e'
    } else {
        'f'
    }
}

/// The textual digest stored for a password: the fold of its bytes,
/// written in lowercase hexadecimal (a bare `0` for zero).
pub open spec fn spec_password_digest(bytes: Seq<u8>) -> Seq<char> {
    let n = spec_pass_fold_from(bytes, 0, 0) as int;
    if n == 0 {
        seq!['0']
    } else {
        spec_hex_digits(n)
    }
}

/// Appends the hexadecimal digits of `n`, highest first, to `s`.
fn push_hex_digits(s: &mut String, n: u64)
    ensures
        final(s)@ == old(s)@ + spec_hex_digits(n as int),
    decreases n,
{
    if n == 0 {
        proof {
            assert(s@ =~= old(s)@ + spec_hex_digits(0));
        }
        return;
    }
    push_hex_digits(s, n / 16);
    let d = (n % 16) as u8;
    let c: char = if d == 0 {
        '0'
    } else if d == 1 {
        '1'
    } else if d == 2 {
        '2'
    } else if d == 3 {
        '3'
    } else if d == 4 {
        '4'
    } else if d == 5 {
        '5'
    } else if d == 6 {
        '6'
    } else if d == 7 {
        '7'
    } else if d == 8 {
        '8'
    } else if d == 9 {
        '9'
    } else if d == 10 {
        'a'
    } else if d == 11 {
        'b'
    } else if d == 12 {
        'c'
    } else if d == 13 {
        'd'
    } else if d == 14 {
        'e'
    } else {
        'f'
    };
    s.push(c);
    proof {
        assert(s@ =~= old(s)@ + spec_hex_digits(n as int));
    }
}

/// The digest a lobby stores for a password.
pub fn password_digest(password: &str) -> (r: String)
    ensures
        r@ == spec_password_digest(password.spec_bytes()),
{
    let bytes = password.as_bytes();
    let n = bytes.len();
    let mut acc: u64 = 0;
    let mut i: usize = 0;
    while i < n
        invariant
            i <= n,
            n == bytes@.len(),
            spec_pass_fold_from(bytes@, acc, i as int) == spec_pass_fold_from(bytes@, 0, 0),
        decreases n - i,
    {
        acc = acc.wrapping_mul(31).wrapping_add(bytes[i] as u64);
        i = i + 1;
    }

    let mut s = String::new();
    if acc == 0 {
        s.push('0');
        proof {
            assert(s@ =~= spec_password_digest(password.spec_bytes()));
        }
        return s;
    }
    push_hex_digits(&mut s, acc);
    proof {
        assert(s@ =~= spec_password_digest(password.spec_bytes()));
    }
    s
}

impl GameLobby {
    /// Whether the lobby has outlived its expiry time as of `now`.
    pub fn is_expired(&self, now: u64) -> (r: bool)
        ensures
            r == (now > self.expires_at),
    {
        now > self.expires_at
    }

    /// Whether `password` opens this lobby: an open lobby admits anyone,
    /// a protected one requires the matching digest.
    pub fn password_matches(&self, password: Option<&String>) -> (r: bool)
        ensures
            match self.password_hash {
                None => r,
                Some(h) => r == (password matches Some(p) && spec_password_digest(
                    vstd::utf8::encode_utf8(p@),
                ) =~= h@),
            },
    {
        match &self.password_hash {
            None => true,
            Some(stored) => {
                match password {
                    Some(p) => {
                        let digest = password_digest(p.as_str());
                        digest == *stored
                    },
                    None => false,
                }
            },
        }
    }
}

} // verus!
