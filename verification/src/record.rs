//! One parsed mount-table line.
//!
//! [`MountEntry::from_str`] turns one line of the eleven-field layout
//!
//! ```text
//! mount_id parent_id major:minor root mount_point mount_opts tag... - filesystem mount_source super_opts
//! ```
//!
//! into a [`MountEntry`] or into the first [`LineError`] encountered scanning
//! left to right.  The whole behaviour is pinned by [`parse_line_spec`].

use vstd::prelude::*;

use mnt::MntOps;

use crate::error::ErrModel;
use crate::error::LineError;
use crate::error::err_view;
use crate::options::OpModel;
use crate::options::op_view;
use crate::options::opts_model;
use crate::text::count_char;
use crate::text::dec_val;
use crate::text::find_char;
use crate::text::find_from;
use crate::text::lemma_count_find;
use crate::text::lemma_find_from_bounds;
use crate::text::numeric_body;
use crate::text::tokens_of;
use crate::text::trim_spec;
use crate::text::usize_err_of;
use crate::text::valid_uint_str;

verus! {

/// Identifier of one mount within a mount table.
pub type MountId = usize;

/// A [`MountEntry`] at the level of the mathematical model.
#[verifier::ext_equal]
pub ghost struct EntryModel {
    pub mount_id: nat,
    pub parent_id: nat,
    pub dev_major: nat,
    pub dev_minor: nat,
    pub root: Seq<char>,
    pub mount_point: Seq<char>,
    pub mount_opts: Seq<OpModel>,
    pub tags: Seq<(Seq<char>, Option<Seq<char>>)>,
    pub filesystem: Seq<char>,
    pub mount_source: Seq<char>,
    pub super_opts: Seq<OpModel>,
}

/// One mount point of a process's mount namespace.
#[derive(Clone, Debug, PartialEq, Eq)]
pub struct MountEntry {
    /// a unique ID for the mount
    pub mount_id: MountId,
    /// the ID of the parent mount
    pub parent_id: MountId,
    /// the major half of st_dev for files on this filesystem
    pub dev_major: u32,
    /// the minor half of st_dev for files on this filesystem
    pub dev_minor: u32,
    /// the directory in the filesystem which forms the root of this mount
    pub root: String,
    /// the mount point relative to the process's root directory
    pub mount_point: String,
    /// per-mount options
    pub mount_opts: Vec<MntOps>,
    /// zero or more tag fields
    pub tags: Vec<(String, Option<String>)>,
    /// the filesystem type
    pub filesystem: String,
    /// filesystem-specific information or "none"
    pub mount_source: String,
    /// per-superblock options
    pub super_opts: Vec<MntOps>,
}

impl View for MountEntry {
    type V = EntryModel;

    open spec fn view(&self) -> EntryModel {
        EntryModel {
            mount_id: self.mount_id as nat,
            parent_id: self.parent_id as nat,
            dev_major: self.dev_major as nat,
            dev_minor: self.dev_minor as nat,
            root: self.root@,
            mount_point: self.mount_point@,
            mount_opts: self.mount_opts@.map_values(|op: MntOps| op_view(op)),
            tags: self.tags.deep_view(),
            filesystem: self.filesystem@,
            mount_source: self.mount_source@,
            super_opts: self.super_opts@.map_values(|op: MntOps| op_view(op)),
        }
    }
}

/// A well-formed device field: exactly one `:`, and an unsigned 32-bit
/// decimal integer on each side of it.
pub open spec fn dev_valid(tok: Seq<char>) -> bool {
    find_char(tok, ':') < tok.len() && find_from(tok, ':', find_char(tok, ':') + 1) >= tok.len()
        && valid_uint_str(tok.subrange(0, find_char(tok, ':')), u32::MAX as nat)
        && valid_uint_str(tok.subrange(find_char(tok, ':') + 1, tok.len() as int), u32::MAX as nat)
}

pub open spec fn dev_major_of(tok: Seq<char>) -> nat {
    dec_val(numeric_body(tok.subrange(0, find_char(tok, ':'))))
}

pub open spec fn dev_minor_of(tok: Seq<char>) -> nat {
    dec_val(numeric_body(tok.subrange(find_char(tok, ':') + 1, tok.len() as int)))
}

/// What one tag token denotes: the part before the first `:` is the name,
/// and what follows that colon, possibly empty, is the value; a token
/// without a colon has no value.
pub open spec fn tag_of(tok: Seq<char>) -> (Seq<char>, Option<Seq<char>>) {
    if find_char(tok, ':') >= tok.len() {
        (tok, None)
    } else {
        (
            tok.subrange(0, find_char(tok, ':')),
            Some(tok.subrange(find_char(tok, ':') + 1, tok.len() as int)),
        )
    }
}

/// A tag token is acceptable unless it is empty or its name part is empty.
pub open spec fn tag_token_ok(tok: Seq<char>) -> bool {
    tok.len() > 0 && tok[0] != ':'
}

/// The tag fields of the token list from position `i` up to the `-`
/// sentinel, together with the position just after the sentinel.
pub open spec fn tags_model(toks: Seq<Seq<char>>, i: int) -> Result<
    (Seq<(Seq<char>, Option<Seq<char>>)>, int),
    ErrModel,
>
    decreases toks.len() - i,
{
    if i < 0 || i >= toks.len() {
        Err(ErrModel::MissingSeparator)
    } else if toks[i] == "-"@ {
        Ok((Seq::empty(), i + 1))
    } else if !tag_token_ok(toks[i]) {
        Err(ErrModel::InvalidTag(toks[i]))
    } else {
        match tags_model(toks, i + 1) {
            Ok(tr) => Ok((seq![tag_of(toks[i])] + tr.0, tr.1)),
            Err(e) => Err(e),
        }
    }
}

/// What a token list parses to: the first failure scanning left to right,
/// or the fully populated record.  Tokens beyond the super options are
/// deliberately ignored.
pub open spec fn parse_tokens_spec(toks: Seq<Seq<char>>) -> Result<EntryModel, ErrModel> {
    if toks.len() <= 0 {
        Err(ErrModel::MissingMountId)
    } else if !valid_uint_str(toks[0], usize::MAX as nat) {
        Err(ErrModel::ParseInt(usize_err_of(toks[0])))
    } else if toks.len() <= 1 {
        Err(ErrModel::MissingParentId)
    } else if !valid_uint_str(toks[1], usize::MAX as nat) {
        Err(ErrModel::ParseInt(usize_err_of(toks[1])))
    } else if toks.len() <= 2 {
        Err(ErrModel::MissingDevId)
    } else if !dev_valid(toks[2]) {
        Err(ErrModel::InvalidDevId(toks[2]))
    } else if toks.len() <= 3 {
        Err(ErrModel::MissingRoot)
    } else if toks.len() <= 4 {
        Err(ErrModel::MissingMountPoint)
    } else if toks.len() <= 5 {
        Err(ErrModel::MissingMountOpts)
    } else {
        match tags_model(toks, 6) {
            Err(e) => Err(e),
            Ok(tr) => {
                if toks.len() <= tr.1 {
                    Err(ErrModel::MissingFileSystem)
                } else if toks.len() <= tr.1 + 1 {
                    Err(ErrModel::MissingMountSource)
                } else if toks.len() <= tr.1 + 2 {
                    Err(ErrModel::MissingSuperOpts)
                } else {
                    Ok(
                        EntryModel {
                            mount_id: dec_val(numeric_body(toks[0])),
                            parent_id: dec_val(numeric_body(toks[1])),
                            dev_major: dev_major_of(toks[2]),
                            dev_minor: dev_minor_of(toks[2]),
                            root: toks[3],
                            mount_point: toks[4],
                            mount_opts: opts_model(toks[5]),
                            tags: tr.0,
                            filesystem: toks[tr.1],
                            mount_source: toks[tr.1 + 1],
                            super_opts: opts_model(toks[tr.1 + 2]),
                        },
                    )
                }
            },
        }
    }
}

/// What one line parses to: the line is trimmed, split into tokens, and the
/// tokens are consumed left to right.
pub open spec fn parse_line_spec(line: Seq<char>) -> Result<EntryModel, ErrModel> {
    parse_tokens_spec(tokens_of(trim_spec(line)))
}

/// The parse result `r` is the one that [`parse_line_spec`] requires for
/// `line`.
pub open spec fn parse_result_ok(line: Seq<char>, r: Result<MountEntry, LineError>) -> bool {
    match parse_line_spec(line) {
        Ok(m) => r matches Ok(e) && e@ == m,
        Err(em) => r matches Err(e) && err_view(e) == em,
    }
}

impl MountEntry {
    /// Parse one line of the eleven-field mount-table layout.
    #[verifier::loop_isolation(false)]
    #[verifier::rlimit(60)]
    pub fn from_str(line: &str) -> (r: Result<MountEntry, LineError>)
        ensures
            parse_result_ok(line@, r),
    {
        let trimmed = crate::text::trim(line);
        let toks = crate::text::split_tokens(trimmed);
        let ghost tv = toks.deep_view();
        proof {
            assert(tv == tokens_of(trim_spec(line@)));
            assert(forall|k: int| 0 <= k < toks@.len() ==> tv[k] == (#[trigger] toks@[k])@);
        }
        if toks.len() == 0 {
            return Err(LineError::MissingMountId);
        }
        let mount_id = match crate::text::parse_usize_token(toks[0].as_str()) {
            Ok(n) => n,
            Err(e) => {
                return Err(LineError::ParseIntError(e));
            },
        };
        if toks.len() == 1 {
            return Err(LineError::MissingParentId);
        }
        let parent_id = match crate::text::parse_usize_token(toks[1].as_str()) {
            Ok(n) => n,
            Err(e) => {
                return Err(LineError::ParseIntError(e));
            },
        };
        if toks.len() == 2 {
            return Err(LineError::MissingDevId);
        }
        let dn = toks[2].as_str().unicode_len();
        let fc = crate::text::find_char_in(toks[2].as_str(), 0, ':');
        if fc == dn {
            return Err(LineError::InvalidDevId(toks[2].clone()));
        }
        let fc2 = crate::text::find_char_in(toks[2].as_str(), fc + 1, ':');
        if fc2 < dn {
            return Err(LineError::InvalidDevId(toks[2].clone()));
        }
        let dev_major = match crate::text::parse_u32_token(
            toks[2].as_str().substring_char(0, fc),
        ) {
            Ok(n) => n,
            Err(_) => {
                return Err(LineError::InvalidDevId(toks[2].clone()));
            },
        };
        let dev_minor = match crate::text::parse_u32_token(
            toks[2].as_str().substring_char(fc + 1, dn),
        ) {
            Ok(n) => n,
            Err(_) => {
                return Err(LineError::InvalidDevId(toks[2].clone()));
            },
        };
        proof {
            assert(dev_valid(tv[2]));
        }
        if toks.len() == 3 {
            return Err(LineError::MissingRoot);
        }
        if toks.len() == 4 {
            return Err(LineError::MissingMountPoint);
        }
        if toks.len() == 5 {
            return Err(LineError::MissingMountOpts);
        }
        let root = toks[3].clone();
        let mount_point = toks[4].clone();
        let mount_opts = crate::options::parse_opts(toks[5].as_str());
        let mut tags: Vec<(String, Option<String>)> = Vec::new();
        let mut i: usize = 6;
        loop
            invariant
                6 <= i <= toks.len(),
                match tags_model(tv, i as int) {
                    Ok(tr) => tags_model(tv, 6) == Ok::<(Seq<(Seq<char>, Option<Seq<char>>)>, int), ErrModel>((tags.deep_view() + tr.0, tr.1)),
                    Err(e) => tags_model(tv, 6) == Err::<(Seq<(Seq<char>, Option<Seq<char>>)>, int), ErrModel>(e),
                },
            decreases toks.len() - i,
        {
            if i == toks.len() {
                return Err(LineError::MissingSeparator);
            }
            proof {
                reveal_strlit("-");
            }
            let sentinel = toks[i].as_str().unicode_len() == 1 && toks[i].as_str().get_char(0)
                == '-';
            if sentinel {
                proof {
                    assert(tv[i as int] =~= "-"@);
                    assert(tags_model(tv, 6) == Ok::<
                        (Seq<(Seq<char>, Option<Seq<char>>)>, int),
                        ErrModel,
                    >((tags.deep_view() + Seq::empty(), i + 1)));
                    assert(tags.deep_view() + Seq::<(Seq<char>, Option<Seq<char>>)>::empty()
                        =~= tags.deep_view());
                }
                let sep = i + 1;
                if sep == toks.len() {
                    return Err(LineError::MissingFileSystem);
                }
                if sep + 1 == toks.len() {
                    return Err(LineError::MissingMountSource);
                }
                if sep + 2 == toks.len() {
                    return Err(LineError::MissingSuperOpts);
                }
                let filesystem = toks[sep].clone();
                let mount_source = toks[sep + 1].clone();
                let super_opts = crate::options::parse_opts(toks[sep + 2].as_str());
                let entry = MountEntry {
                    mount_id,
                    parent_id,
                    dev_major,
                    dev_minor,
                    root,
                    mount_point,
                    mount_opts,
                    tags,
                    filesystem,
                    mount_source,
                    super_opts,
                };
                proof {
                    let m = parse_tokens_spec(tv)->Ok_0;
                    assert(entry@ =~~= m);
                }
                return Ok(entry);
            }
            if toks[i].as_str().unicode_len() == 0 || toks[i].as_str().get_char(0) == ':' {
                proof {
                    assert(tv[i as int] != "-"@);
                    assert(!tag_token_ok(tv[i as int]));
                }
                return Err(LineError::InvalidTag(toks[i].clone()));
            }
            proof {
                assert(tv[i as int] != "-"@);
                assert(tag_token_ok(tv[i as int]));
            }
            let nn = toks[i].as_str().unicode_len();
            let fc = crate::text::find_char_in(toks[i].as_str(), 0, ':');
            let tag: (String, Option<String>) = if fc == nn {
                (toks[i].clone(), None)
            } else {
                (
                    toks[i].as_str().substring_char(0, fc).to_owned(),
                    Some(toks[i].as_str().substring_char(fc + 1, nn).to_owned()),
                )
            };
            let ghost dv = tags.deep_view();
            proof {
                assert((tag.0@, match tag.1 {
                    Some(v) => Some(v@),
                    None => None,
                }) == tag_of(tv[i as int]));
            }
            tags.push(tag);
            proof {
                assert(tags.deep_view() =~~= dv.push(tag_of(tv[i as int])));
                match tags_model(tv, i + 1) {
                    Ok(tr) => {
                        assert(tags_model(tv, i as int) == Ok::<
                            (Seq<(Seq<char>, Option<Seq<char>>)>, int),
                            ErrModel,
                        >((seq![tag_of(tv[i as int])] + tr.0, tr.1)));
                        assert(tags.deep_view() + tr.0 =~~= dv + (seq![tag_of(tv[i as int])]
                            + tr.0));
                    },
                    Err(_) => {},
                }
            }
            i = i + 1;
        }
    }
}

proof fn lemma_tags_segment(toks: Seq<Seq<char>>, i: int, sep: int)
    requires
        0 <= i <= sep < toks.len(),
        toks[sep] == "-"@,
        forall|m: int| i <= m < sep ==> (#[trigger] toks[m]) != "-"@ && tag_token_ok(toks[m]),
    ensures
        tags_model(toks, i) == Ok::<(Seq<(Seq<char>, Option<Seq<char>>)>, int), ErrModel>(
            (Seq::new((sep - i) as nat, |k: int| tag_of(toks[i + k])), sep + 1),
        ),
    decreases sep - i,
{
    if i == sep {
        assert(Seq::new(0, |k: int| tag_of(toks[i + k])) =~= Seq::<
            (Seq<char>, Option<Seq<char>>),
        >::empty());
    } else {
        lemma_tags_segment(toks, i + 1, sep);
        assert(seq![tag_of(toks[i])] + Seq::new((sep - i - 1) as nat, |k: int| tag_of(toks[i + 1 + k]))
            =~= Seq::new((sep - i) as nat, |k: int| tag_of(toks[i + k])));
    }
}

/// Every well-formed token list of the eleven-field layout parses, and each
/// field of the record is exactly the value that its raw token denotes —
/// whatever tokens may follow the super options.
pub proof fn lemma_well_formed_round_trip(toks: Seq<Seq<char>>, sep: int)
    requires
        valid_uint_str(toks[0], usize::MAX as nat),
        valid_uint_str(toks[1], usize::MAX as nat),
        dev_valid(toks[2]),
        6 <= sep < toks.len(),
        toks[sep] == "-"@,
        forall|m: int| 6 <= m < sep ==> (#[trigger] toks[m]) != "-"@ && tag_token_ok(toks[m]),
        toks.len() > sep + 3,
    ensures
        parse_tokens_spec(toks) matches Ok(m) && {
            &&& m.mount_id == dec_val(numeric_body(toks[0]))
            &&& m.parent_id == dec_val(numeric_body(toks[1]))
            &&& m.dev_major == dev_major_of(toks[2])
            &&& m.dev_minor == dev_minor_of(toks[2])
            &&& m.root == toks[3]
            &&& m.mount_point == toks[4]
            &&& m.mount_opts == opts_model(toks[5])
            &&& m.tags == Seq::new((sep - 6) as nat, |k: int| tag_of(toks[6 + k]))
            &&& m.filesystem == toks[sep + 1]
            &&& m.mount_source == toks[sep + 2]
            &&& m.super_opts == opts_model(toks[sep + 3])
        },
{
    lemma_tags_segment(toks, 6, sep);
}

proof fn lemma_tags_model_ok_bounds(toks: Seq<Seq<char>>, i: int)
    requires
        0 <= i,
        tags_model(toks, i) is Ok,
    ensures
        i < tags_model(toks, i)->Ok_0.1 <= toks.len(),
    decreases toks.len() - i,
{
    if i < toks.len() && toks[i] != "-"@ && tag_token_ok(toks[i]) {
        if tags_model(toks, i + 1) is Ok {
            lemma_tags_model_ok_bounds(toks, i + 1);
        }
    }
}

proof fn lemma_tags_append(toks: Seq<Seq<char>>, extra: Seq<Seq<char>>, i: int)
    requires
        0 <= i,
        tags_model(toks, i) is Ok,
    ensures
        tags_model(toks + extra, i) == tags_model(toks, i),
    decreases toks.len() - i,
{
    assert(i < toks.len());
    assert((toks + extra)[i] == toks[i]);
    if toks[i] == "-"@ {
    } else {
        lemma_tags_append(toks, extra, i + 1);
    }
}

/// Leniency: tokens beyond the super options are ignored, so appending any
/// further tokens to a token list that parses leaves the result unchanged.
pub proof fn lemma_trailing_tokens_ignored(toks: Seq<Seq<char>>, extra: Seq<Seq<char>>)
    requires
        parse_tokens_spec(toks) is Ok,
    ensures
        parse_tokens_spec(toks + extra) == parse_tokens_spec(toks),
{
    lemma_tags_append(toks, extra, 6);
    lemma_tags_model_ok_bounds(toks, 6);
    assert((toks + extra)[0] == toks[0]);
    assert((toks + extra)[1] == toks[1]);
    assert((toks + extra)[2] == toks[2]);
    assert((toks + extra)[3] == toks[3]);
    assert((toks + extra)[4] == toks[4]);
    assert((toks + extra)[5] == toks[5]);
    let tr = tags_model(toks, 6)->Ok_0;
    assert((toks + extra)[tr.1] == toks[tr.1]);
    assert((toks + extra)[tr.1 + 1] == toks[tr.1 + 1]);
    assert((toks + extra)[tr.1 + 2] == toks[tr.1 + 2]);
}

proof fn lemma_tags_no_separator(toks: Seq<Seq<char>>, i: int)
    requires
        0 <= i,
        forall|m: int| i <= m < toks.len() ==> (#[trigger] toks[m]) != "-"@ && tag_token_ok(toks[m]),
    ensures
        tags_model(toks, i) == Err::<(Seq<(Seq<char>, Option<Seq<char>>)>, int), ErrModel>(
            ErrModel::MissingSeparator,
        ),
    decreases toks.len() - i,
{
    if i < toks.len() {
        lemma_tags_no_separator(toks, i + 1);
    }
}

/// A line whose first six fields parse but whose remaining tokens are all
/// acceptable tags and never the `-` sentinel fails with the
/// missing-separator failure and with no other variant.
pub proof fn lemma_missing_separator(toks: Seq<Seq<char>>)
    requires
        toks.len() > 5,
        valid_uint_str(toks[0], usize::MAX as nat),
        valid_uint_str(toks[1], usize::MAX as nat),
        dev_valid(toks[2]),
        forall|m: int| 6 <= m < toks.len() ==> (#[trigger] toks[m]) != "-"@ && tag_token_ok(toks[m]),
    ensures
        parse_tokens_spec(toks) == Err::<EntryModel, ErrModel>(ErrModel::MissingSeparator),
{
    lemma_tags_no_separator(toks, 6);
}

/// A device field with anything other than exactly two colon-separated
/// parts fails with the invalid-device failure carrying exactly that raw
/// token.
pub proof fn lemma_invalid_device(toks: Seq<Seq<char>>)
    requires
        toks.len() > 2,
        valid_uint_str(toks[0], usize::MAX as nat),
        valid_uint_str(toks[1], usize::MAX as nat),
        count_char(toks[2], ':') != 1,
    ensures
        parse_tokens_spec(toks) == Err::<EntryModel, ErrModel>(ErrModel::InvalidDevId(toks[2])),
{
    lemma_count_find(toks[2], ':', 0);
    if dev_valid(toks[2]) {
        let fc = find_char(toks[2], ':');
        lemma_find_from_bounds(toks[2], ':', 0);
        lemma_find_from_bounds(toks[2], ':', fc + 1);
        lemma_count_find(toks[2], ':', fc + 1);
        assert(false);
    }
}

/// Idempotence: two results that both satisfy the line parser's contract for
/// the same line agree — equal records, or equal failures, at the level of
/// the model.
pub proof fn lemma_parse_deterministic(
    line: Seq<char>,
    r1: Result<MountEntry, LineError>,
    r2: Result<MountEntry, LineError>,
)
    requires
        parse_result_ok(line, r1),
        parse_result_ok(line, r2),
    ensures
        match (r1, r2) {
            (Ok(a), Ok(b)) => a@ == b@,
            (Err(a), Err(b)) => err_view(a) == err_view(b),
            _ => false,
        },
{
}

/// A tag token without a colon is a bare name with no value; a token with a
/// colon splits at its first colon, the value being everything after it,
/// possibly empty.
pub proof fn lemma_tag_shapes(tok: Seq<char>)
    ensures
        count_char(tok, ':') == 0 ==> tag_of(tok) == (tok, None::<Seq<char>>),
        find_char(tok, ':') < tok.len() ==> tag_of(tok) == (
            tok.subrange(0, find_char(tok, ':')),
            Some(tok.subrange(find_char(tok, ':') + 1, tok.len() as int)),
        ),
{
    lemma_count_find(tok, ':', 0);
}

} // verus!
