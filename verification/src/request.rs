use vstd::prelude::*;
use vstd::string::StrSliceExecFns;
use vstd::string::StringExecFns;
use crate::processing::ProcessParameters;
use crate::text::chars_of;
use crate::text::decimal;
use crate::text::find;
use crate::text::lemma_cut_once;
use crate::text::lemma_decimal;
use crate::text::lemma_find;
use crate::text::spec_decimal;
use crate::text::spec_find;

verus! {

/// The seed of every fingerprint. It is fixed, so that a request has the
/// same key in every run.
pub const FINGERPRINT_SEED: u64 = 42;

/// The 64-bit hash that `ahash` gives a text under the keys
/// `(seed, 0, 0, 0)`.
pub uninterp spec fn seeded_hash(seed: u64, text: Seq<char>) -> u64;

/// Calls `ahash::RandomState::with_seeds` with the keys `(seed, 0, 0, 0)` and
/// hashes the text with `hash_one`. `with_seeds` takes all four keys from
/// its arguments, without any value drawn at run time, and which hasher
/// runs is settled when the crate is built. The contract claims only that
/// the hash is a function of seed and text: it gives that function the
/// name `seeded_hash`.
#[verifier::external_body]
fn hash_text(seed: u64, text: &str) -> (hash: u64)
    ensures
        hash == seeded_hash(seed, text@),
{
    ahash::RandomState::with_seeds(seed, 0, 0, 0).hash_one(text)
}

/// The key of a stored image: the hash of its file name under the fixed
/// seed.
pub fn hash(name: String) -> (key: u64)
    ensures
        key == seeded_hash(FINGERPRINT_SEED, name@),
{
    hash_text(FINGERPRINT_SEED, name.as_str())
}

/// What identifies a request: the name of the image, the format it is
/// stored in and what is to be done to it.
#[derive(Debug, PartialEq, Eq)]
pub struct ImgInfo {
    pub name: String,
    pub format: String,
    pub params: ProcessParameters,
}

/// A text as it stands in an identity: its length, a colon, the text.
pub open spec fn spec_field(text: Seq<char>) -> Seq<char> {
    spec_decimal(text.len() as int) + seq![':'] + text
}

/// A number as it stands in an identity: its decimal form and a semicolon.
pub open spec fn spec_number(n: int) -> Seq<char> {
    spec_decimal(n) + seq![';']
}

/// Appends `text` to `identity` as a field.
fn push_field(identity: &mut String, text: &str)
    ensures
        final(identity)@ == old(identity)@ + spec_field(text@),
{
    let count = text.unicode_len();
    identity.append(decimal(count as i128).as_str());
    identity.append(":");
    identity.append(text);
    proof {
        reveal_strlit(":");
        assert(":"@ =~= seq![':']);
        assert(identity@ =~= old(identity)@ + spec_field(text@));
    }
}

/// Appends `n` to `identity` as a number.
fn push_number(identity: &mut String, n: i128)
    ensures
        final(identity)@ == old(identity)@ + spec_number(n as int),
{
    identity.append(decimal(n).as_str());
    identity.append(";");
    proof {
        reveal_strlit(";");
        assert(";"@ =~= seq![';']);
        assert(identity@ =~= old(identity)@ + spec_number(n as int));
    }
}

impl ImgInfo {
    /// The identity of the request as one text: every part of it, in a
    /// fixed order, texts with their length in front and numbers closed by
    /// a semicolon.
    pub open spec fn spec_identity(&self) -> Seq<char> {
        spec_field(self.name@) + spec_field(self.format@) + spec_number(self.params.resx as int)
            + spec_number(self.params.resy as int) + spec_field(self.params.resfilter@)
            + spec_field(self.params.filter@) + spec_number(self.params.f_param as int)
            + spec_field(self.params.transform@) + spec_number(self.params.t_param as int)
            + spec_field(self.params.process@) + spec_number(self.params.p1 as int)
            + spec_number(self.params.p2 as int) + spec_field(self.params.to@)
    }

    /// The cache key of the request: the hash of its identity under the
    /// fixed seed.
    pub open spec fn spec_fingerprint(&self) -> u64 {
        seeded_hash(FINGERPRINT_SEED, self.spec_identity())
    }

    /// The identity of the request as one text.
    pub fn identity(&self) -> (text: String)
        ensures
            text@ == self.spec_identity(),
    {
        let mut text = String::new();
        proof {
            assert(text@ =~= Seq::<char>::empty());
        }
        push_field(&mut text, self.name.as_str());
        push_field(&mut text, self.format.as_str());
        push_number(&mut text, self.params.resx as i128);
        push_number(&mut text, self.params.resy as i128);
        push_field(&mut text, self.params.resfilter.as_str());
        push_field(&mut text, self.params.filter.as_str());
        push_number(&mut text, self.params.f_param as i128);
        push_field(&mut text, self.params.transform.as_str());
        push_number(&mut text, self.params.t_param as i128);
        push_field(&mut text, self.params.process.as_str());
        push_number(&mut text, self.params.p1 as i128);
        push_number(&mut text, self.params.p2 as i128);
        push_field(&mut text, self.params.to.as_str());
        proof {
            assert(text@ =~= self.spec_identity());
        }
        text
    }

    /// The cache key of the request.
    pub fn fingerprint(&self) -> (key: u64)
        ensures
            key == self.spec_fingerprint(),
    {
        let text = self.identity();
        hash_text(FINGERPRINT_SEED, text.as_str())
    }

    /// The content type of the stored image: "image/" and its format.
    pub fn content_type(&self) -> (text: String)
        ensures
            text@ == "image/"@ + self.format@,
    {
        String::from_str("image/").concat(self.format.as_str())
    }
}

/// Requests that agree in every part have the same cache key.
pub proof fn law_same_request_same_key(a: ImgInfo, b: ImgInfo)
    requires
        a.name@ == b.name@,
        a.format@ == b.format@,
        a.params.resx == b.params.resx,
        a.params.resy == b.params.resy,
        a.params.resfilter@ == b.params.resfilter@,
        a.params.filter@ == b.params.filter@,
        a.params.f_param == b.params.f_param,
        a.params.transform@ == b.params.transform@,
        a.params.t_param == b.params.t_param,
        a.params.process@ == b.params.process@,
        a.params.p1 == b.params.p1,
        a.params.p2 == b.params.p2,
        a.params.to@ == b.params.to@,
    ensures
        a.spec_identity() == b.spec_identity(),
        a.spec_fingerprint() == b.spec_fingerprint(),
{
}

/// A field at the head of a text can be read in one way only.
proof fn lemma_field_unique(
    text: Seq<char>,
    rest: Seq<char>,
    other_text: Seq<char>,
    other_rest: Seq<char>,
)
    requires
        spec_field(text) + rest == spec_field(other_text) + other_rest,
    ensures
        text == other_text,
        rest == other_rest,
{
    let length = spec_decimal(text.len() as int);
    let other_length = spec_decimal(other_text.len() as int);
    lemma_decimal(text.len() as int, other_text.len() as int);
    lemma_decimal(other_text.len() as int, text.len() as int);
    assert(spec_field(text) + rest =~= length + seq![':'] + (text + rest));
    assert(spec_field(other_text) + other_rest =~= other_length + seq![':'] + (other_text
        + other_rest));
    lemma_cut_once(length, text + rest, other_length, other_text + other_rest, ':');
    assert(text =~= (text + rest).subrange(0, text.len() as int));
    assert(other_text =~= (other_text + other_rest).subrange(0, other_text.len() as int));
    assert(rest =~= (text + rest).subrange(text.len() as int, (text + rest).len() as int));
    assert(other_rest =~= (other_text + other_rest).subrange(
        other_text.len() as int,
        (other_text + other_rest).len() as int,
    ));
}

/// A number at the head of a text can be read in one way only.
proof fn lemma_number_unique(n: int, rest: Seq<char>, other: int, other_rest: Seq<char>)
    requires
        spec_number(n) + rest == spec_number(other) + other_rest,
    ensures
        n == other,
        rest == other_rest,
{
    lemma_decimal(n, other);
    lemma_decimal(other, n);
    assert(spec_number(n) + rest =~= spec_decimal(n) + seq![';'] + rest);
    assert(spec_number(other) + other_rest =~= spec_decimal(other) + seq![';'] + other_rest);
    lemma_cut_once(spec_decimal(n), rest, spec_decimal(other), other_rest, ';');
}

/// Three texts in a row are the same text however they are grouped.
proof fn lemma_regroup(x: Seq<char>, y: Seq<char>, z: Seq<char>)
    ensures
        (x + y) + z == x + (y + z),
{
    assert((x + y) + z =~= x + (y + z));
}

/// The parts of an identity from the `from`-th on, in their order.
spec fn spec_identity_from(info: ImgInfo, from: int) -> Seq<char>
    decreases 13 - from,
{
    if from < 0 || from >= 13 {
        Seq::empty()
    } else {
        let part = if from == 0 {
            spec_field(info.name@)
        } else if from == 1 {
            spec_field(info.format@)
        } else if from == 2 {
            spec_number(info.params.resx as int)
        } else if from == 3 {
            spec_number(info.params.resy as int)
        } else if from == 4 {
            spec_field(info.params.resfilter@)
        } else if from == 5 {
            spec_field(info.params.filter@)
        } else if from == 6 {
            spec_number(info.params.f_param as int)
        } else if from == 7 {
            spec_field(info.params.transform@)
        } else if from == 8 {
            spec_number(info.params.t_param as int)
        } else if from == 9 {
            spec_field(info.params.process@)
        } else if from == 10 {
            spec_number(info.params.p1 as int)
        } else if from == 11 {
            spec_number(info.params.p2 as int)
        } else {
            spec_field(info.params.to@)
        };
        part + spec_identity_from(info, from + 1)
    }
}

/// An identity is its first part followed by the others.
proof fn lemma_identity_in_parts(info: ImgInfo)
    ensures
        info.spec_identity() == spec_identity_from(info, 0),
{
    let p0 = spec_field(info.name@);
    let p1 = spec_field(info.format@);
    let p2 = spec_number(info.params.resx as int);
    let p3 = spec_number(info.params.resy as int);
    let p4 = spec_field(info.params.resfilter@);
    let p5 = spec_field(info.params.filter@);
    let p6 = spec_number(info.params.f_param as int);
    let p7 = spec_field(info.params.transform@);
    let p8 = spec_number(info.params.t_param as int);
    let p9 = spec_field(info.params.process@);
    let p10 = spec_number(info.params.p1 as int);
    let p11 = spec_number(info.params.p2 as int);
    let p12 = spec_field(info.params.to@);
    let r13 = spec_identity_from(info, 13);
    let r12 = spec_identity_from(info, 12);
    let r11 = spec_identity_from(info, 11);
    let r10 = spec_identity_from(info, 10);
    let r9 = spec_identity_from(info, 9);
    let r8 = spec_identity_from(info, 8);
    let r7 = spec_identity_from(info, 7);
    let r6 = spec_identity_from(info, 6);
    let r5 = spec_identity_from(info, 5);
    let r4 = spec_identity_from(info, 4);
    let r3 = spec_identity_from(info, 3);
    let r2 = spec_identity_from(info, 2);
    let r1 = spec_identity_from(info, 1);
    let l1 = p0 + p1;
    let l2 = l1 + p2;
    let l3 = l2 + p3;
    let l4 = l3 + p4;
    let l5 = l4 + p5;
    let l6 = l5 + p6;
    let l7 = l6 + p7;
    let l8 = l7 + p8;
    let l9 = l8 + p9;
    let l10 = l9 + p10;
    let l11 = l10 + p11;
    assert(r13 == Seq::<char>::empty());
    assert(r12 == p12 + r13);
    assert(r12 =~= p12);
    assert(r11 == p11 + r12);
    assert(r10 == p10 + r11);
    assert(r9 == p9 + r10);
    assert(r8 == p8 + r9);
    assert(r7 == p7 + r8);
    assert(r6 == p6 + r7);
    assert(r5 == p5 + r6);
    assert(r4 == p4 + r5);
    assert(r3 == p3 + r4);
    assert(r2 == p2 + r3);
    assert(r1 == p1 + r2);
    lemma_regroup(l10, p11, r12);
    lemma_regroup(l9, p10, r11);
    lemma_regroup(l8, p9, r10);
    lemma_regroup(l7, p8, r9);
    lemma_regroup(l6, p7, r8);
    lemma_regroup(l5, p6, r7);
    lemma_regroup(l4, p5, r6);
    lemma_regroup(l3, p4, r5);
    lemma_regroup(l2, p3, r4);
    lemma_regroup(l1, p2, r3);
    lemma_regroup(p0, p1, r2);
    assert(info.spec_identity() == l11 + p12);
}

/// Requests with the same identity agree in every part: two requests that
/// differ anywhere get the same cache key only if the hash itself collides.
pub proof fn law_identity_tells_requests_apart(a: ImgInfo, b: ImgInfo)
    requires
        a.spec_identity() == b.spec_identity(),
    ensures
        a.name@ == b.name@,
        a.format@ == b.format@,
        a.params.resx == b.params.resx,
        a.params.resy == b.params.resy,
        a.params.resfilter@ == b.params.resfilter@,
        a.params.filter@ == b.params.filter@,
        a.params.f_param == b.params.f_param,
        a.params.transform@ == b.params.transform@,
        a.params.t_param == b.params.t_param,
        a.params.process@ == b.params.process@,
        a.params.p1 == b.params.p1,
        a.params.p2 == b.params.p2,
        a.params.to@ == b.params.to@,
{
    lemma_identity_in_parts(a);
    lemma_identity_in_parts(b);
    reveal_with_fuel(spec_identity_from, 14);
    lemma_field_unique(a.name@, spec_identity_from(a, 1), b.name@, spec_identity_from(b, 1));
    lemma_field_unique(a.format@, spec_identity_from(a, 2), b.format@, spec_identity_from(b, 2));
    lemma_number_unique(
        a.params.resx as int,
        spec_identity_from(a, 3),
        b.params.resx as int,
        spec_identity_from(b, 3),
    );
    lemma_number_unique(
        a.params.resy as int,
        spec_identity_from(a, 4),
        b.params.resy as int,
        spec_identity_from(b, 4),
    );
    lemma_field_unique(
        a.params.resfilter@,
        spec_identity_from(a, 5),
        b.params.resfilter@,
        spec_identity_from(b, 5),
    );
    lemma_field_unique(
        a.params.filter@,
        spec_identity_from(a, 6),
        b.params.filter@,
        spec_identity_from(b, 6),
    );
    lemma_number_unique(
        a.params.f_param as int,
        spec_identity_from(a, 7),
        b.params.f_param as int,
        spec_identity_from(b, 7),
    );
    lemma_field_unique(
        a.params.transform@,
        spec_identity_from(a, 8),
        b.params.transform@,
        spec_identity_from(b, 8),
    );
    lemma_number_unique(
        a.params.t_param as int,
        spec_identity_from(a, 9),
        b.params.t_param as int,
        spec_identity_from(b, 9),
    );
    lemma_field_unique(
        a.params.process@,
        spec_identity_from(a, 10),
        b.params.process@,
        spec_identity_from(b, 10),
    );
    lemma_number_unique(
        a.params.p1 as int,
        spec_identity_from(a, 11),
        b.params.p1 as int,
        spec_identity_from(b, 11),
    );
    lemma_number_unique(
        a.params.p2 as int,
        spec_identity_from(a, 12),
        b.params.p2 as int,
        spec_identity_from(b, 12),
    );
    lemma_field_unique(
        a.params.to@,
        spec_identity_from(a, 13),
        b.params.to@,
        spec_identity_from(b, 13),
    );
}

/// Where the parts of a path such as "cat.png" lie: the name ends at the
/// first dot, the format runs from there to the next dot or to the end.
/// There is no such split for a path without a dot.
pub open spec fn spec_split(path: Seq<char>) -> Option<(Seq<char>, Seq<char>)> {
    match spec_find(path, '.', 0) {
        None => None,
        Some(dot) => {
            let end = match spec_find(path, '.', dot + 1) {
                Some(next) => next,
                None => path.len() as int,
            };
            Some((path.subrange(0, dot), path.subrange(dot + 1, end)))
        },
    }
}

/// The request for the image at `path`, such as "cat.png", with the given
/// parameters; none for a path without a dot.
pub fn parse(path: &str, params: ProcessParameters) -> (info: Option<ImgInfo>)
    ensures
        match info {
            Some(info) => spec_split(path@) == Some((info.name@, info.format@)) && info.params
                == params,
            None => spec_split(path@).is_none(),
        },
{
    let chars = chars_of(path);
    match find(&chars, '.', 0) {
        None => None,
        Some(dot) => {
            proof {
                lemma_find(path@, '.', 0);
                lemma_find(path@, '.', dot + 1);
            }
            let end = match find(&chars, '.', dot + 1) {
                Some(next) => next,
                None => chars.len(),
            };
            Some(
                ImgInfo {
                    name: String::from_str(path.substring_char(0, dot)),
                    format: String::from_str(path.substring_char(dot + 1, end)),
                    params,
                },
            )
        },
    }
}

} // verus!
