//! Mount-option tokens.
//!
//! An individual option token is parsed by the `mnt` crate into its
//! [`MntOps`] value; this module wraps that call, models an option at the
//! specification level, and splits an option field on commas.

use vstd::prelude::*;

use mnt::MntOps;
use std::str::FromStr;

use crate::text::find_from;

verus! {

#[verifier::external_type_specification]
pub struct ExMntOps(MntOps);

/// A mount option at the level of the mathematical model.
pub ghost enum OpModel {
    Atime(bool),
    DirAtime(bool),
    RelAtime(bool),
    Dev(bool),
    Exec(bool),
    Suid(bool),
    Write(bool),
    Extra(Seq<char>),
}

pub open spec fn op_view(op: MntOps) -> OpModel {
    match op {
        MntOps::Atime(b) => OpModel::Atime(b),
        MntOps::DirAtime(b) => OpModel::DirAtime(b),
        MntOps::RelAtime(b) => OpModel::RelAtime(b),
        MntOps::Dev(b) => OpModel::Dev(b),
        MntOps::Exec(b) => OpModel::Exec(b),
        MntOps::Suid(b) => OpModel::Suid(b),
        MntOps::Write(b) => OpModel::Write(b),
        MntOps::Extra(s) => OpModel::Extra(s@),
    }
}

/// What one option token parses to: each of the fourteen known option words
/// maps to its flag, and any other token is carried as an extra.
pub open spec fn op_of_token(tok: Seq<char>) -> OpModel {
    if tok == "atime"@ {
        OpModel::Atime(true)
    } else if tok == "noatime"@ {
        OpModel::Atime(false)
    } else if tok == "diratime"@ {
        OpModel::DirAtime(true)
    } else if tok == "nodiratime"@ {
        OpModel::DirAtime(false)
    } else if tok == "relatime"@ {
        OpModel::RelAtime(true)
    } else if tok == "norelatime"@ {
        OpModel::RelAtime(false)
    } else if tok == "dev"@ {
        OpModel::Dev(true)
    } else if tok == "nodev"@ {
        OpModel::Dev(false)
    } else if tok == "exec"@ {
        OpModel::Exec(true)
    } else if tok == "noexec"@ {
        OpModel::Exec(false)
    } else if tok == "suid"@ {
        OpModel::Suid(true)
    } else if tok == "nosuid"@ {
        OpModel::Suid(false)
    } else if tok == "rw"@ {
        OpModel::Write(true)
    } else if tok == "ro"@ {
        OpModel::Write(false)
    } else {
        OpModel::Extra(tok)
    }
}

/// Relies on mnt's `MntOps::from_str`: it maps each of the fourteen known
/// option words to its variant, wraps any other token in `MntOps::Extra`,
/// and returns `Ok` on every input, so the fallback arm below cannot run.
#[verifier::external_body]
fn parse_mnt_op(tok: &str) -> (r: MntOps)
    ensures
        op_view(r) == op_of_token(tok@),
{
    match MntOps::from_str(tok) {
        Ok(op) => op,
        Err(_) => MntOps::Extra(tok.to_owned()),
    }
}

/// The comma-separated pieces of an option field, one final separator being
/// tolerated: pieces end at each comma and a last empty piece is not
/// produced.
pub open spec fn split_commas_from(s: Seq<char>, i: int) -> Seq<Seq<char>>
    decreases s.len() - i,
        via split_commas_decreases
{
    if i < 0 || i >= s.len() {
        Seq::empty()
    } else {
        if find_from(s, ',', i) >= s.len() {
            seq![s.subrange(i, s.len() as int)]
        } else {
            seq![s.subrange(i, find_from(s, ',', i))] + split_commas_from(
                s,
                find_from(s, ',', i) + 1,
            )
        }
    }
}

#[via_fn]
proof fn split_commas_decreases(s: Seq<char>, i: int) {
    if 0 <= i < s.len() {
        crate::text::lemma_find_from_bounds(s, ',', i);
    }
}

pub open spec fn split_commas(s: Seq<char>) -> Seq<Seq<char>> {
    split_commas_from(s, 0)
}

/// What a whole option field parses to.
pub open spec fn opts_model(s: Seq<char>) -> Seq<OpModel> {
    split_commas(s).map_values(|t: Seq<char>| op_of_token(t))
}

/// Parse one option field: split it on commas and parse each piece as one
/// option token.
pub fn parse_opts(s: &str) -> (v: Vec<MntOps>)
    ensures
        v@.map_values(|op: MntOps| op_view(op)) == opts_model(s@),
{
    let n = s.unicode_len();
    let mut v: Vec<MntOps> = Vec::new();
    let mut i: usize = 0;
    proof {
        assert(opts_model(s@) =~= v@.map_values(|op: MntOps| op_view(op)) + split_commas_from(
            s@,
            0,
        ).map_values(|t: Seq<char>| op_of_token(t)));
    }
    while i < n
        invariant
            0 <= i <= n,
            n == s@.len(),
            opts_model(s@) =~= v@.map_values(|op: MntOps| op_view(op)) + split_commas_from(
                s@,
                i as int,
            ).map_values(|t: Seq<char>| op_of_token(t)),
        decreases n - i,
    {
        let c = crate::text::find_char_in(s, i, ',');
        let ghost vm0 = v@.map_values(|op: MntOps| op_view(op));
        let op = parse_mnt_op(s.substring_char(i, c));
        v.push(op);
        proof {
            assert(v@.map_values(|op: MntOps| op_view(op)) =~= vm0.push(op_view(op)));
        }
        if c == n {
            proof {
                assert(split_commas_from(s@, i as int) =~= seq![s@.subrange(i as int, n as int)]);
                assert(opts_model(s@) =~= v@.map_values(|op: MntOps| op_view(op))
                    + split_commas_from(s@, n as int).map_values(|t: Seq<char>| op_of_token(t)));
            }
            i = n;
        } else {
            proof {
                assert(split_commas_from(s@, i as int) =~= seq![s@.subrange(i as int, c as int)]
                    + split_commas_from(s@, c + 1));
                assert(split_commas_from(s@, i as int).map_values(|t: Seq<char>| op_of_token(t))
                    =~= seq![op_of_token(s@.subrange(i as int, c as int))] + split_commas_from(
                    s@,
                    c + 1,
                ).map_values(|t: Seq<char>| op_of_token(t)));
                assert(opts_model(s@) =~= v@.map_values(|op: MntOps| op_view(op))
                    + split_commas_from(s@, c + 1).map_values(|t: Seq<char>| op_of_token(t)));
            }
            i = c + 1;
        }
    }
    proof {
        assert(opts_model(s@) =~= v@.map_values(|op: MntOps| op_view(op)));
    }
    v
}

} // verus!
