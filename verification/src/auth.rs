//! Bearer-token authentication of the HTTP upgrade.
use subtle::ConstantTimeEq;
use vstd::prelude::*;
use vstd::utf8::encode_utf8;

verus! {

broadcast use vstd::string::group_string_axioms;

/// Authenticates an HTTP bearer credential.
pub trait Authenticator: Send + Sync {
    /// The set of credentials this authenticator authorizes.
    spec fn authorizes(&self, bearer_token: Seq<char>) -> bool;

    /// Returns true only when the credential is authorized.
    fn authenticate(&self, bearer_token: &str) -> (authorized: bool)
        ensures
            authorized == self.authorizes(bearer_token@),
    ;
}

/// Constant-time authenticator backed by one static token.
#[derive(Clone)]
pub struct StaticTokenAuthenticator {
    expected: Vec<u8>,
}

impl View for StaticTokenAuthenticator {
    type V = Seq<u8>;

    /// The UTF-8 bytes of the configured token.
    closed spec fn view(&self) -> Seq<u8> {
        self.expected@
    }
}

/// `subtle::ConstantTimeEq::ct_eq` on `u64`, read out with `bool::from`:
/// true exactly when the two integers are equal.
#[verifier::external_body]
fn ct_eq_u64(left: u64, right: u64) -> (equal: bool)
    ensures
        equal == (left == right),
{
    bool::from(left.ct_eq(&right))
}

/// `subtle::ConstantTimeEq::ct_eq` on `u8`, read out with `bool::from`:
/// true exactly when the two bytes are equal.
#[verifier::external_body]
fn ct_eq_u8(left: u8, right: u8) -> (equal: bool)
    ensures
        equal == (left == right),
{
    bool::from(left.ct_eq(&right))
}

/// Byte `index` of `bytes`, or zero past its end.
pub open spec fn padded_byte(bytes: Seq<u8>, index: int) -> u8 {
    if 0 <= index < bytes.len() {
        bytes[index]
    } else {
        0
    }
}

impl StaticTokenAuthenticator {
    /// Creates an authenticator. The token value is never formatted or logged.
    pub fn new(token: &str) -> (authenticator: Self)
        ensures
            authenticator@ == encode_utf8(token@),
    {
        Self { expected: vstd::slice::slice_to_vec(token.as_bytes()) }
    }
}

impl Authenticator for StaticTokenAuthenticator {
    open spec fn authorizes(&self, bearer_token: Seq<char>) -> bool {
        encode_utf8(bearer_token) == self@
    }

    fn authenticate(&self, bearer_token: &str) -> (authorized: bool) {
        let supplied = bearer_token.as_bytes();
        let same_length = ct_eq_u64(supplied.len() as u64, self.expected.len() as u64);
        let mut difference: u8 = 0;
        let maximum = if supplied.len() >= self.expected.len() {
            supplied.len()
        } else {
            self.expected.len()
        };
        let mut index: usize = 0;
        while index < maximum
            invariant
                index <= maximum,
                maximum == supplied@.len() || maximum == self.expected@.len(),
                supplied@.len() <= maximum,
                self.expected@.len() <= maximum,
                difference == 0 <==> forall|j: int|
                    0 <= j < index ==> padded_byte(supplied@, j) == padded_byte(
                        self.expected@,
                        j,
                    ),
            decreases maximum - index,
        {
            let left = if index < supplied.len() {
                supplied[index]
            } else {
                0
            };
            let right = if index < self.expected.len() {
                self.expected[index]
            } else {
                0
            };
            let before = difference;
            difference = difference | (left ^ right);
            assert(difference == 0 <==> (before == 0 && left == right)) by (bit_vector)
                requires
                    difference == before | (left ^ right),
            ;
            assert(left == padded_byte(supplied@, index as int));
            assert(right == padded_byte(self.expected@, index as int));
            index = index + 1;
        }
        let no_difference = ct_eq_u8(difference, 0);
        let authorized = (same_length as u8) & (no_difference as u8) == 1;
        assert(((same_length as u8) & (no_difference as u8) == 1) == (same_length && no_difference)) by (bit_vector);
        proof {
            assert(supplied@ == encode_utf8(bearer_token@));
            if authorized {
                assert forall|j: int| 0 <= j < supplied@.len() implies supplied@[j]
                    == self.expected@[j] by {
                    assert(padded_byte(supplied@, j) == padded_byte(self.expected@, j));
                }
                assert(supplied@ =~= self.expected@);
            } else if supplied@ == self.expected@ {
                assert(forall|j: int|
                    0 <= j < index ==> padded_byte(supplied@, j) == padded_byte(
                        self.expected@,
                        j,
                    ));
            }
        }
        authorized
    }
}


/// Unicode's `White_Space` property: the tab, line feed, vertical tab, form
/// feed and carriage return, the space, next line, no-break space, Ogham
/// space mark, the spaces from en quad to hair space, the line and paragraph
/// separators, the narrow no-break space, the medium mathematical space and
/// the ideographic space.
pub open spec fn unicode_white_space(c: char) -> bool {
    let code = c as u32;
    ||| 0x09 <= code && code <= 0x0d
    ||| code == 0x20
    ||| code == 0x85
    ||| code == 0xa0
    ||| code == 0x1680
    ||| 0x2000 <= code && code <= 0x200a
    ||| code == 0x2028
    ||| code == 0x2029
    ||| code == 0x202f
    ||| code == 0x205f
    ||| code == 0x3000
}

/// `char::is_whitespace`, which its documentation defines as having Unicode's
/// `White_Space` property.
#[verifier::external_body]
fn is_whitespace(c: char) -> (white: bool)
    ensures
        white == unicode_white_space(c),
{
    c.is_whitespace()
}

/// ASCII case folding of one character, as a code point.
pub open spec fn ascii_fold(c: char) -> u32 {
    if 'A' <= c && c <= 'Z' {
        (c as u32 + 32) as u32
    } else {
        c as u32
    }
}

/// `str::eq_ignore_ascii_case`: equal length and equal characters after
/// ASCII case folding.
pub open spec fn ascii_case_insensitive_eq(left: Seq<char>, right: Seq<char>) -> bool {
    &&& left.len() == right.len()
    &&& forall|i: int| 0 <= i < left.len() ==> ascii_fold(left[i]) == ascii_fold(right[i])
}

/// `i` is the position of the first space in `header`.
pub open spec fn is_first_space(header: Seq<char>, i: int) -> bool {
    &&& 0 <= i < header.len()
    &&& header[i] == ' '
    &&& forall|j: int| 0 <= j < i ==> header[j] != ' '
}

/// No character of `text` is whitespace.
pub open spec fn free_of_whitespace(text: Seq<char>) -> bool {
    forall|i: int| 0 <= i < text.len() ==> !unicode_white_space(#[trigger] text[i])
}

/// The credential of a strict `Bearer <token>` header: the header splits at
/// its first space into a scheme equal to `bearer` up to ASCII case and a
/// nonempty credential free of whitespace.
pub open spec fn bearer_credential(header: Seq<char>) -> Option<Seq<char>> {
    if exists|i: int| is_first_space(header, i) {
        let i = choose|i: int| is_first_space(header, i);
        let scheme = header.take(i);
        let credential = header.skip(i + 1);
        if ascii_case_insensitive_eq(scheme, "bearer"@) && credential.len() > 0
            && free_of_whitespace(credential) {
            Some(credential)
        } else {
            None
        }
    } else {
        None
    }
}

fn fold_ascii(c: char) -> (folded: u32)
    ensures
        folded == ascii_fold(c),
{
    if 'A' <= c && c <= 'Z' {
        c as u32 + 32
    } else {
        c as u32
    }
}

/// `str::eq_ignore_ascii_case`, written over characters.
pub fn eq_ignore_ascii_case(left: &str, right: &str) -> (equal: bool)
    ensures
        equal == ascii_case_insensitive_eq(left@, right@),
{
    let length = left.unicode_len();
    if length != right.unicode_len() {
        return false;
    }
    let mut index: usize = 0;
    while index < length
        invariant
            index <= length,
            length == left@.len(),
            length == right@.len(),
            forall|i: int| 0 <= i < index ==> ascii_fold(left@[i]) == ascii_fold(right@[i]),
        decreases length - index,
    {
        if fold_ascii(left.get_char(index)) != fold_ascii(right.get_char(index)) {
            return false;
        }
        index = index + 1;
    }
    true
}

/// Position of the first space, scanning the characters once.
fn find_first_space(header: &str) -> (position: Option<usize>)
    ensures
        match position {
            Some(i) => is_first_space(header@, i as int),
            None => forall|i: int| 0 <= i < header@.len() ==> header@[i] != ' ',
        },
{
    let length = header.unicode_len();
    let mut position: usize = 0;
    for c in it: header.chars()
        invariant
            length == header@.len(),
            position == it.index(),
            it.seq() == header@,
            forall|j: int| 0 <= j < position ==> header@[j] != ' ',
    {
        if c == ' ' {
            return Some(position);
        }
        position = position + 1;
    }
    None
}

/// Extracts the token from a strict `Bearer <token>` header.
pub fn parse_bearer(header: &str) -> (credential: Option<&str>)
    ensures
        match credential {
            Some(c) => bearer_credential(header@) == Some(c@),
            None => bearer_credential(header@) is None,
        },
{
    let Some(split) = find_first_space(header) else {
        return None;
    };
    let length = header.unicode_len();
    let scheme = header.substring_char(0, split);
    let credential = header.substring_char(split + 1, length);
    proof {
        assert(is_first_space(header@, split as int));
        let i = choose|i: int| is_first_space(header@, i);
        assert(i == split) by {
            if i < split {
                assert(header@[i] != ' ');
            } else if split < i {
                assert(header@[split as int] != ' ');
            }
        }
        assert(scheme@ =~= header@.take(split as int));
        assert(credential@ =~= header@.skip(split + 1));
        reveal_strlit("bearer");
    }
    if !eq_ignore_ascii_case(scheme, "bearer") || credential.unicode_len() == 0 {
        return None;
    }
    let mut clean = true;
    for c in it: credential.chars()
        invariant
            it.seq() == credential@,
            clean == forall|j: int| 0 <= j < it.index() ==> !unicode_white_space(credential@[j]),
    {
        if is_whitespace(c) {
            clean = false;
        }
    }
    if clean {
        Some(credential)
    } else {
        None
    }
}

/// An authenticator made from a token accepts exactly that token.
pub proof fn lemma_static_token_accepts_only_its_token(
    authenticator: StaticTokenAuthenticator,
    token: Seq<char>,
    candidate: Seq<char>,
)
    requires
        authenticator@ == encode_utf8(token),
    ensures
        authenticator.authorizes(candidate) <==> candidate == token,
{
    vstd::utf8::encode_utf8_decode_utf8(token);
    vstd::utf8::encode_utf8_decode_utf8(candidate);
}

/// A credential that `parse_bearer` extracts is the nonempty,
/// whitespace-free rest of the header after its first space, and the part
/// before that space spells `bearer` up to ASCII case.
pub proof fn lemma_bearer_credential_shape(header: Seq<char>)
    ensures
        bearer_credential(header) matches Some(credential) ==> {
            let scheme = header.take(header.len() - credential.len() - 1);
            &&& credential.len() > 0
            &&& free_of_whitespace(credential)
            &&& ascii_case_insensitive_eq(scheme, "bearer"@)
            &&& header =~= scheme + seq![' '] + credential
            &&& forall|j: int| 0 <= j < scheme.len() ==> scheme[j] != ' '
        },
{
    if bearer_credential(header) is Some {
        let i = choose|i: int| is_first_space(header, i);
        let credential = header.skip(i + 1);
        assert(header.len() - credential.len() - 1 == i);
        assert(header =~= header.take(i) + seq![' '] + credential);
    }
}

/// Every well-formed header yields its credential: a scheme that spells
/// `bearer` up to ASCII case, one space, and a nonempty credential in which
/// no character has Unicode's `White_Space` property give exactly that
/// credential, whatever other characters it holds.
pub proof fn lemma_bearer_credential_is_accepted(scheme: Seq<char>, credential: Seq<char>)
    requires
        ascii_case_insensitive_eq(scheme, "bearer"@),
        credential.len() > 0,
        forall|i: int| 0 <= i < credential.len() ==> !unicode_white_space(#[trigger] credential[i]),
    ensures
        bearer_credential(scheme + seq![' '] + credential) == Some(credential),
{
    let header = scheme + seq![' '] + credential;
    let split = scheme.len() as int;
    reveal_strlit("bearer");
    assert forall|j: int| 0 <= j < split implies header[j] != ' ' by {
        assert(header[j] == scheme[j]);
        assert(ascii_fold(scheme[j]) == ascii_fold("bearer"@[j]));
        if scheme[j] == ' ' {
            assert(ascii_fold(' ') == 32);
        }
    }
    assert(header[split] == ' ');
    assert(is_first_space(header, split));
    let i = choose|i: int| is_first_space(header, i);
    assert(i == split) by {
        if i < split {
            assert(header[i] != ' ');
        } else if split < i {
            assert(header[split] != ' ');
        }
    }
    assert(header.take(split) =~= scheme);
    assert(header.skip(split + 1) =~= credential);
}

} // verus!
