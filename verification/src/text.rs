//! Validation rules for the identifiers, item names, media types and free
//! text that cross the coordinator's boundary.

use vstd::prelude::*;
use vstd::string::StrSliceExecFns;
use vstd::string::StringSliceAdditionalSpecFns;
use vstd::utf8::encode_utf8;

verus! {

/// `.`
pub const DOT: u8 = 0x2e;
/// `_`
pub const UNDERSCORE: u8 = 0x5f;
/// `-`
pub const HYPHEN: u8 = 0x2d;
/// `:`
pub const COLON: u8 = 0x3a;
/// `/`
pub const SLASH: u8 = 0x2f;

/// ASCII letters and digits.
pub open spec fn is_ascii_alnum(b: u8) -> bool {
    (0x30u8 <= b <= 0x39u8) || (0x61u8 <= b <= 0x7au8) || (0x41u8 <= b <= 0x5au8)
}

/// Bytes allowed in a name: ASCII alphanumerics and `.`, `_`, `-`, `:`.
pub open spec fn is_name_byte(b: u8) -> bool {
    is_ascii_alnum(b) || b == DOT || b == UNDERSCORE || b == HYPHEN || b == COLON
}

/// Bytes allowed in a relative path: ASCII alphanumerics and `.`, `_`, `-`, `/`.
pub open spec fn is_path_byte(b: u8) -> bool {
    is_ascii_alnum(b) || b == DOT || b == UNDERSCORE || b == HYPHEN || b == SLASH
}

/// Bytes allowed in a media type: ASCII alphanumerics and `! # $ & + - . / ^ _ |`.
pub open spec fn is_media_type_byte(b: u8) -> bool {
    is_ascii_alnum(b) || b == 0x21u8 || b == 0x23u8 || b == 0x24u8 || b == 0x26u8 || b == 0x2bu8
        || b == HYPHEN || b == DOT || b == SLASH || b == 0x5eu8 || b == UNDERSCORE || b == 0x7cu8
}

/// A name is 1 to 256 bytes, each a name byte.
pub open spec fn spec_valid_name(s: Seq<u8>) -> bool {
    &&& 0 < s.len() <= 256
    &&& forall|i: int| 0 <= i < s.len() ==> is_name_byte(#[trigger] s[i])
}

/// A dimension (a scope kind or a reason code) is a name that neither starts
/// nor ends with `.`.
pub open spec fn spec_valid_dimension(s: Seq<u8>) -> bool {
    &&& spec_valid_name(s)
    &&& s[0] != DOT
    &&& s[s.len() - 1] != DOT
}

/// The path segment that starts at `i` is exactly `.`.
pub open spec fn dot_segment_at(s: Seq<u8>, i: int) -> bool {
    &&& 0 <= i < s.len()
    &&& i == 0 || s[i - 1] == SLASH
    &&& s[i] == DOT
    &&& i + 1 == s.len() || s[i + 1] == SLASH
}

/// The path segment that starts at `i` is exactly `..`.
pub open spec fn dot_dot_segment_at(s: Seq<u8>, i: int) -> bool {
    &&& 0 <= i && i + 1 < s.len()
    &&& i == 0 || s[i - 1] == SLASH
    &&& s[i] == DOT
    &&& s[i + 1] == DOT
    &&& i + 2 == s.len() || s[i + 2] == SLASH
}

/// A relative path of 1 to 256 path bytes, with no leading or trailing `/`,
/// no empty segment and no `.` or `..` segment.
pub open spec fn spec_valid_relative_path(s: Seq<u8>) -> bool {
    &&& 0 < s.len() <= 256
    &&& s[0] != SLASH
    &&& s[s.len() - 1] != SLASH
    &&& forall|i: int| 0 <= i < s.len() ==> is_path_byte(#[trigger] s[i])
    &&& forall|i: int| 0 <= i && i + 1 < s.len() ==> !(#[trigger] s[i] == SLASH && s[i + 1] == SLASH)
    &&& forall|i: int| !#[trigger] dot_segment_at(s, i)
    &&& forall|i: int| !#[trigger] dot_dot_segment_at(s, i)
}

/// A media type `kind/subtype`: exactly one `/`, with a non-empty part on
/// each side, at most 128 bytes, each a media-type byte.
pub open spec fn spec_valid_media_type(s: Seq<u8>) -> bool {
    &&& s.len() <= 128
    &&& forall|i: int| 0 <= i < s.len() ==> is_media_type_byte(#[trigger] s[i])
    &&& exists|p: int|
        0 < p && p + 1 < s.len() && #[trigger] s[p] == SLASH && forall|j: int|
            0 <= j < s.len() && j != p ==> s[j] != SLASH
}

fn is_name_byte_exec(b: u8) -> (r: bool)
    ensures
        r == is_name_byte(b),
{
    (0x30u8 <= b && b <= 0x39u8) || (0x61u8 <= b && b <= 0x7au8) || (0x41u8 <= b && b <= 0x5au8)
        || b == DOT || b == UNDERSCORE || b == HYPHEN || b == COLON
}

fn is_path_byte_exec(b: u8) -> (r: bool)
    ensures
        r == is_path_byte(b),
{
    (0x30u8 <= b && b <= 0x39u8) || (0x61u8 <= b && b <= 0x7au8) || (0x41u8 <= b && b <= 0x5au8)
        || b == DOT || b == UNDERSCORE || b == HYPHEN || b == SLASH
}

fn is_media_type_byte_exec(b: u8) -> (r: bool)
    ensures
        r == is_media_type_byte(b),
{
    (0x30u8 <= b && b <= 0x39u8) || (0x61u8 <= b && b <= 0x7au8) || (0x41u8 <= b && b <= 0x5au8)
        || b == 0x21u8 || b == 0x23u8 || b == 0x24u8 || b == 0x26u8 || b == 0x2bu8 || b == HYPHEN
        || b == DOT || b == SLASH || b == 0x5eu8 || b == UNDERSCORE || b == 0x7cu8
}

/// Checks an instance key or an opaque identifier.
pub fn valid_name(value: &str) -> (r: bool)
    ensures
        r == spec_valid_name(value.spec_bytes()),
{
    let bytes = value.as_bytes();
    let n = bytes.len();
    if n == 0 || n > 256 {
        return false;
    }
    let mut i: usize = 0;
    while i < n
        invariant
            n == bytes@.len(),
            bytes@ == value.spec_bytes(),
            i <= n,
            forall|j: int| 0 <= j < i ==> is_name_byte(#[trigger] bytes@[j]),
        decreases n - i,
    {
        if !is_name_byte_exec(bytes[i]) {
            return false;
        }
        i = i + 1;
    }
    true
}

/// Checks a scope kind or a reason code.
pub fn valid_dimension(value: &str) -> (r: bool)
    ensures
        r == spec_valid_dimension(value.spec_bytes()),
{
    if !valid_name(value) {
        return false;
    }
    let bytes = value.as_bytes();
    bytes[0] != DOT && bytes[bytes.len() - 1] != DOT
}

/// Checks a relative, slash-separated path (an export item name or a secret
/// reference).
fn valid_relative_path(value: &str) -> (r: bool)
    ensures
        r == spec_valid_relative_path(value.spec_bytes()),
{
    let bytes = value.as_bytes();
    let ghost s = bytes@;
    let n = bytes.len();
    if n == 0 || n > 256 || bytes[0] == SLASH || bytes[n - 1] == SLASH {
        return false;
    }
    let mut i: usize = 0;
    while i < n
        invariant
            n == s.len(),
            s == bytes@,
            s == value.spec_bytes(),
            0 < n <= 256,
            s[0] != SLASH,
            s[n - 1] != SLASH,
            i <= n,
            forall|j: int| 0 <= j < i ==> is_path_byte(#[trigger] s[j]),
            forall|j: int| 0 <= j && j + 1 < s.len() && j < i ==> !(#[trigger] s[j] == SLASH && s[j + 1] == SLASH),
            forall|j: int| j < i ==> !#[trigger] dot_segment_at(s, j),
            forall|j: int| j < i ==> !#[trigger] dot_dot_segment_at(s, j),
        decreases n - i,
    {
        let b = bytes[i];
        if !is_path_byte_exec(b) {
            return false;
        }
        if b == SLASH && i + 1 < n && bytes[i + 1] == SLASH {
            assert(s[i as int] == SLASH && s[i + 1] == SLASH);
            return false;
        }
        let at_segment_start = i == 0 || bytes[i - 1] == SLASH;
        if at_segment_start && b == DOT {
            if i + 1 == n || bytes[i + 1] == SLASH {
                assert(dot_segment_at(s, i as int));
                return false;
            }
            if bytes[i + 1] == DOT && (i + 2 == n || bytes[i + 2] == SLASH) {
                assert(dot_dot_segment_at(s, i as int));
                return false;
            }
        }
        i = i + 1;
    }
    true
}

/// Checks the name of one exported item.
pub fn valid_item_name(value: &str) -> (r: bool)
    ensures
        r == spec_valid_relative_path(value.spec_bytes()),
{
    valid_relative_path(value)
}

/// Checks the reference under which the database URL secret is stored.
pub fn valid_secret_reference(reference: &str) -> (r: bool)
    ensures
        r == spec_valid_relative_path(reference.spec_bytes()),
{
    valid_relative_path(reference)
}

/// Checks a media type such as `application/json`.
pub fn valid_media_type(value: &str) -> (r: bool)
    ensures
        r == spec_valid_media_type(value.spec_bytes()),
{
    let bytes = value.as_bytes();
    let ghost s = bytes@;
    let n = bytes.len();
    // position of the first `/`
    let mut p: usize = 0;
    while p < n && bytes[p] != SLASH
        invariant
            n == s.len(),
            s == bytes@,
            p <= n,
            forall|j: int| 0 <= j < p ==> s[j] != SLASH,
        decreases n - p,
    {
        p = p + 1;
    }
    if p == n || p == 0 || p + 1 == n || n > 128 {
        assert(!spec_valid_media_type(s) || s != value.spec_bytes()) by {
            if spec_valid_media_type(s) {
                let q = choose|q: int|
                    0 < q && q + 1 < s.len() && #[trigger] s[q] == SLASH && forall|j: int|
                        0 <= j < s.len() && j != q ==> s[j] != SLASH;
                if p < n {
                    assert(s[p as int] == SLASH);
                    assert(q == p);
                }
            }
        }
        return false;
    }
    let mut i: usize = 0;
    while i < n
        invariant
            n == s.len(),
            s == bytes@,
            s == value.spec_bytes(),
            0 < p < n - 1,
            n <= 128,
            s[p as int] == SLASH,
            forall|j: int| 0 <= j < p ==> s[j] != SLASH,
            i <= n,
            forall|j: int| 0 <= j < i ==> is_media_type_byte(#[trigger] s[j]),
            forall|j: int| p < j < i ==> s[j] != SLASH,
        decreases n - i,
    {
        let b = bytes[i];
        if !is_media_type_byte_exec(b) {
            return false;
        }
        if i > p && b == SLASH {
            assert(!spec_valid_media_type(s)) by {
                if spec_valid_media_type(s) {
                    let q = choose|q: int|
                        0 < q && q + 1 < s.len() && #[trigger] s[q] == SLASH && forall|j: int|
                            0 <= j < s.len() && j != q ==> s[j] != SLASH;
                    assert(s[p as int] == SLASH);
                    assert(q == p);
                }
            }
            return false;
        }
        i = i + 1;
    }
    assert(s[p as int] == SLASH);
    true
}

/// Checks the identity fields shared by export and retention requests.
pub open spec fn spec_valid_request_identity(
    id: Seq<u8>,
    scope_kind: Seq<u8>,
    scope_id: Seq<u8>,
    subject: Seq<u8>,
) -> bool {
    &&& spec_valid_name(id)
    &&& spec_valid_dimension(scope_kind)
    &&& spec_valid_name(scope_id)
    &&& spec_valid_name(subject)
}

/// Checks a request's stable ID, scope kind, scope ID and subject.
pub fn valid_request_identity(id: &str, scope_kind: &str, scope_id: &str, subject: &str) -> (r:
    bool)
    ensures
        r == spec_valid_request_identity(
            id.spec_bytes(),
            scope_kind.spec_bytes(),
            scope_id.spec_bytes(),
            subject.spec_bytes(),
        ),
{
    valid_name(id) && valid_dimension(scope_kind) && valid_name(scope_id) && valid_name(subject)
}

/// A guard decision is well formed when its ID is a name and a reason code is
/// present exactly when the guard denies, and is then a dimension.
pub open spec fn spec_valid_guard_decision(
    allowed: bool,
    decision_id: Seq<u8>,
    reason_code: Option<Seq<u8>>,
) -> bool {
    &&& spec_valid_name(decision_id)
    &&& match reason_code {
        None => allowed,
        Some(code) => !allowed && spec_valid_dimension(code),
    }
}

/// The bytes of an optional string.
pub open spec fn opt_bytes(value: Option<&str>) -> Option<Seq<u8>> {
    match value {
        Some(s) => Some(s.spec_bytes()),
        None => None,
    }
}

/// Checks the evidence a retention guard returned; anything ambiguous is
/// rejected.
pub fn valid_guard_decision(allowed: bool, decision_id: &str, reason_code: Option<&str>) -> (r:
    bool)
    ensures
        r == spec_valid_guard_decision(allowed, decision_id.spec_bytes(), opt_bytes(reason_code)),
{
    valid_name(decision_id) && match (allowed, reason_code) {
        (true, None) => true,
        (false, Some(reason_code)) => valid_dimension(reason_code),
        _ => false,
    }
}

/// Unicode `White_Space` characters, which `str::trim` removes.
pub open spec fn is_whitespace(c: char) -> bool {
    let v = c as u32;
    ||| 0x09 <= v <= 0x0d
    ||| v == 0x20
    ||| v == 0x85
    ||| v == 0xa0
    ||| v == 0x1680
    ||| 0x2000 <= v <= 0x200a
    ||| v == 0x2028
    ||| v == 0x2029
    ||| v == 0x202f
    ||| v == 0x205f
    ||| v == 0x3000
}

/// Unicode control characters (general category `Cc`).
pub open spec fn is_control(c: char) -> bool {
    let v = c as u32;
    v <= 0x1f || (0x7f <= v <= 0x9f)
}

fn is_whitespace_exec(c: char) -> (r: bool)
    ensures
        r == is_whitespace(c),
{
    let v = c as u32;
    (0x09 <= v && v <= 0x0d) || v == 0x20 || v == 0x85 || v == 0xa0 || v == 0x1680 || (0x2000 <= v
        && v <= 0x200a) || v == 0x2028 || v == 0x2029 || v == 0x202f || v == 0x205f || v == 0x3000
}

fn is_control_exec(c: char) -> (r: bool)
    ensures
        r == is_control(c),
{
    let v = c as u32;
    v <= 0x1f || (0x7f <= v && v <= 0x9f)
}

/// Index of the first character at or after `i` that is not whitespace, or
/// the length when there is none.
pub open spec fn first_kept(s: Seq<char>, i: int) -> int
    decreases s.len() - i,
{
    if i < 0 || i >= s.len() {
        s.len() as int
    } else if is_whitespace(s[i]) {
        first_kept(s, i + 1)
    } else {
        i
    }
}

/// One past the index of the last character before `j` that is not
/// whitespace, or 0 when there is none.
pub open spec fn kept_end(s: Seq<char>, j: int) -> int
    decreases j,
{
    if j <= 0 || j > s.len() {
        0
    } else if is_whitespace(s[j - 1]) {
        kept_end(s, j - 1)
    } else {
        j
    }
}

/// `s` without its leading and trailing whitespace.
pub open spec fn trimmed(s: Seq<char>) -> Seq<char> {
    if first_kept(s, 0) >= s.len() {
        Seq::empty()
    } else {
        s.subrange(first_kept(s, 0), kept_end(s, s.len() as int))
    }
}

proof fn lemma_first_kept_bounds(s: Seq<char>, i: int)
    requires
        0 <= i <= s.len(),
    ensures
        i <= first_kept(s, i) <= s.len(),
        first_kept(s, i) < s.len() ==> !is_whitespace(s[first_kept(s, i)]),
        forall|k: int| i <= k < first_kept(s, i) ==> is_whitespace(s[k]),
    decreases s.len() - i,
{
    if i < s.len() && is_whitespace(s[i]) {
        lemma_first_kept_bounds(s, i + 1);
    }
}

proof fn lemma_kept_end_bounds(s: Seq<char>, j: int)
    requires
        0 <= j <= s.len(),
    ensures
        0 <= kept_end(s, j) <= j,
        kept_end(s, j) > 0 ==> !is_whitespace(s[kept_end(s, j) - 1]),
        forall|k: int| kept_end(s, j) <= k < j ==> is_whitespace(s[k]),
    decreases j,
{
    if j > 0 && is_whitespace(s[j - 1]) {
        lemma_kept_end_bounds(s, j - 1);
    }
}

/// When some character is kept, the kept range is non-empty and ordered.
proof fn lemma_trim_range(s: Seq<char>)
    requires
        first_kept(s, 0) < s.len(),
    ensures
        0 <= first_kept(s, 0) < kept_end(s, s.len() as int) <= s.len(),
        trimmed(s).len() > 0,
{
    lemma_first_kept_bounds(s, 0);
    lemma_kept_end_bounds(s, s.len() as int);
    let a = first_kept(s, 0);
    let b = kept_end(s, s.len() as int);
    if b <= a {
        assert(is_whitespace(s[a]));
    }
}

/// Returns `value` without leading and trailing whitespace, as `str::trim`
/// does.
pub fn trim(value: &str) -> (r: String)
    ensures
        r@ == trimmed(value@),
{
    let n = value.unicode_len();
    let mut a: usize = 0;
    while a < n && is_whitespace_exec(value.get_char(a))
        invariant
            n == value@.len(),
            a <= n,
            first_kept(value@, 0) == first_kept(value@, a as int),
        decreases n - a,
    {
        a = a + 1;
    }
    if a == n {
        return String::new();
    }
    let mut b: usize = n;
    while b > 0 && is_whitespace_exec(value.get_char(b - 1))
        invariant
            n == value@.len(),
            b <= n,
            kept_end(value@, n as int) == kept_end(value@, b as int),
        decreases b,
    {
        b = b - 1;
    }
    proof {
        lemma_trim_range(value@);
    }
    value.substring_char(a, b).to_owned()
}

/// Free text accepted from a caller or a participant: not blank once trimmed,
/// at most `max_bytes` bytes of UTF-8, and free of control characters.
pub open spec fn spec_valid_text(s: &str, max_bytes: nat) -> bool {
    &&& trimmed(s@).len() > 0
    &&& s.spec_bytes().len() <= max_bytes
    &&& forall|i: int| 0 <= i < s@.len() ==> !is_control(#[trigger] s@[i])
}

/// Checks a retention reason or a participant receipt against its byte bound.
pub fn valid_text(value: &str, max_bytes: usize) -> (r: bool)
    ensures
        r == spec_valid_text(value, max_bytes as nat),
{
    if value.as_bytes().len() > max_bytes {
        return false;
    }
    let n = value.unicode_len();
    let mut i: usize = 0;
    while i < n
        invariant
            n == value@.len(),
            i <= n,
            forall|j: int| 0 <= j < i ==> !is_control(#[trigger] value@[j]),
        decreases n - i,
    {
        if is_control_exec(value.get_char(i)) {
            return false;
        }
        i = i + 1;
    }
    let t = trim(value);
    t.as_str().unicode_len() > 0
}

/// ASCII lower-case letters.
pub open spec fn is_ascii_lower(b: u8) -> bool {
    0x61u8 <= b <= 0x7au8
}

/// Bytes allowed after the first in an owned schema name.
pub open spec fn is_schema_byte(b: u8) -> bool {
    is_ascii_lower(b) || (0x30u8 <= b <= 0x39u8) || b == UNDERSCORE
}

/// `public`
pub open spec fn public_schema() -> Seq<u8> {
    seq![0x70u8, 0x75, 0x62, 0x6c, 0x69, 0x63]
}

/// `information_schema`
pub open spec fn information_schema() -> Seq<u8> {
    seq![0x69u8, 0x6e, 0x66, 0x6f, 0x72, 0x6d, 0x61, 0x74, 0x69, 0x6f, 0x6e, 0x5f, 0x73, 0x63, 0x68, 0x65, 0x6d, 0x61]
}

/// `pg_`
pub open spec fn system_schema_prefix() -> Seq<u8> {
    seq![0x70u8, 0x67, 0x5f]
}

/// A PostgreSQL schema a plugin may own: 1 to 63 bytes, a lower-case ASCII
/// letter followed by lower-case letters, digits or `_`, and neither
/// `public`, `information_schema` nor a `pg_` schema.
pub open spec fn spec_valid_schema_name(s: Seq<u8>) -> bool {
    &&& 0 < s.len() <= 63
    &&& is_ascii_lower(s[0])
    &&& forall|i: int| 1 <= i < s.len() ==> is_schema_byte(#[trigger] s[i])
    &&& s != public_schema()
    &&& s != information_schema()
    &&& !(s.len() >= 3 && s.subrange(0, 3) == system_schema_prefix())
}

fn bytes_equal(a: &[u8], b: &Vec<u8>) -> (r: bool)
    ensures
        r == (a@ == b@),
{
    if a.len() != b.len() {
        return false;
    }
    let mut i: usize = 0;
    while i < a.len()
        invariant
            a@.len() == b@.len(),
            i <= a@.len(),
            forall|j: int| 0 <= j < i ==> a@[j] == b@[j],
        decreases a@.len() - i,
    {
        if a[i] != b[i] {
            return false;
        }
        i = i + 1;
    }
    assert(a@ =~= b@);
    true
}

/// Checks the name of the PostgreSQL schema the coordinator owns, under the
/// owned-schema naming rule of the PostgreSQL lifecycle kit.
pub fn valid_schema_name(schema: &str) -> (r: bool)
    ensures
        r == spec_valid_schema_name(schema.spec_bytes()),
{
    let bytes = schema.as_bytes();
    let ghost s = bytes@;
    let n = bytes.len();
    if n == 0 || n > 63 || !(0x61u8 <= bytes[0] && bytes[0] <= 0x7au8) {
        return false;
    }
    let mut i: usize = 1;
    while i < n
        invariant
            n == s.len(),
            s == bytes@,
            s == schema.spec_bytes(),
            1 <= i <= n,
            forall|j: int| 1 <= j < i ==> is_schema_byte(#[trigger] s[j]),
        decreases n - i,
    {
        let b = bytes[i];
        if !((0x61u8 <= b && b <= 0x7au8) || (0x30u8 <= b && b <= 0x39u8) || b == UNDERSCORE) {
            assert(!is_schema_byte(s[i as int]));
            return false;
        }
        i = i + 1;
    }
    let public = vec![0x70u8, 0x75, 0x62, 0x6c, 0x69, 0x63];
    let information = vec![0x69u8, 0x6e, 0x66, 0x6f, 0x72, 0x6d, 0x61, 0x74, 0x69, 0x6f, 0x6e, 0x5f, 0x73, 0x63, 0x68, 0x65, 0x6d, 0x61];
    assert(public@ =~= public_schema());
    assert(information@ =~= information_schema());
    if bytes_equal(bytes, &public) || bytes_equal(bytes, &information) {
        return false;
    }
    if n >= 3 && bytes[0] == 0x70u8 && bytes[1] == 0x67u8 && bytes[2] == UNDERSCORE {
        assert(s.subrange(0, 3) =~= system_schema_prefix());
        return false;
    }
    assert(!(s.len() >= 3 && s.subrange(0, 3) == system_schema_prefix())) by {
        if s.len() >= 3 && s.subrange(0, 3) == system_schema_prefix() {
            assert(s[0] == s.subrange(0, 3)[0]);
            assert(s[1] == s.subrange(0, 3)[1]);
            assert(s[2] == s.subrange(0, 3)[2]);
        }
    }
    true
}

/// The decimal digit character for `d < 10`.
pub open spec fn digit_char(d: nat) -> char {
    ((0x30 + d) as u32) as char
}

/// Base-10 digits of `n`, most significant first, without leading zeros.
pub open spec fn decimal_digits(n: nat) -> Seq<char>
    decreases n,
{
    if n < 10 {
        seq![digit_char(n)]
    } else {
        decimal_digits(n / 10).push(digit_char(n % 10))
    }
}

/// Base-10 text of `v`, with a leading `-` when it is negative.
pub open spec fn decimal_text(v: int) -> Seq<char> {
    if v < 0 {
        seq!['-'].add(decimal_digits((-v) as nat))
    } else {
        decimal_digits(v as nat)
    }
}

fn push_digit(s: &mut String, d: u64)
    requires
        d < 10,
    ensures
        final(s)@ == old(s)@.push(digit_char(d as nat)),
{
    let lit = match d {
        0 => "0",
        1 => "1",
        2 => "2",
        3 => "3",
        4 => "4",
        5 => "5",
        6 => "6",
        7 => "7",
        8 => "8",
        _ => "9",
    };
    proof {
        reveal_strlit("0");
        reveal_strlit("1");
        reveal_strlit("2");
        reveal_strlit("3");
        reveal_strlit("4");
        reveal_strlit("5");
        reveal_strlit("6");
        reveal_strlit("7");
        reveal_strlit("8");
        reveal_strlit("9");
    }
    assert(lit@ =~= seq![digit_char(d as nat)]);
    s.append(lit);
}

fn append_decimal_digits(s: &mut String, n: u64)
    ensures
        final(s)@ == old(s)@ + decimal_digits(n as nat),
    decreases n,
{
    if n < 10 {
        push_digit(s, n);
        assert(old(s)@.push(digit_char(n as nat)) =~= old(s)@ + decimal_digits(n as nat));
    } else {
        append_decimal_digits(s, n / 10);
        push_digit(s, n % 10);
        assert(final(s)@ =~= old(s)@ + decimal_digits(n as nat));
    }
}

/// Formats an integer in base 10, as `to_string` does.
pub fn decimal(v: i64) -> (r: String)
    ensures
        r@ == decimal_text(v as int),
{
    let mut s = String::new();
    if v < 0 {
        proof {
            reveal_strlit("-");
        }
        s.append("-");
        let magnitude: u64 = if v == i64::MIN {
            9223372036854775808u64
        } else {
            (-v) as u64
        };
        append_decimal_digits(&mut s, magnitude);
    } else {
        append_decimal_digits(&mut s, v as u64);
    }
    s
}

/// The rules above, stated over the characters of a string.
pub open spec fn name_ok(s: Seq<char>) -> bool {
    spec_valid_name(encode_utf8(s))
}

/// See [`spec_valid_dimension`].
pub open spec fn dimension_ok(s: Seq<char>) -> bool {
    spec_valid_dimension(encode_utf8(s))
}

/// See [`spec_valid_relative_path`].
pub open spec fn relative_path_ok(s: Seq<char>) -> bool {
    spec_valid_relative_path(encode_utf8(s))
}

/// See [`spec_valid_media_type`].
pub open spec fn media_type_ok(s: Seq<char>) -> bool {
    spec_valid_media_type(encode_utf8(s))
}

/// See [`spec_valid_schema_name`].
pub open spec fn schema_name_ok(s: Seq<char>) -> bool {
    spec_valid_schema_name(encode_utf8(s))
}

/// See [`spec_valid_request_identity`].
pub open spec fn request_identity_ok(
    id: Seq<char>,
    scope_kind: Seq<char>,
    scope_id: Seq<char>,
    subject: Seq<char>,
) -> bool {
    &&& name_ok(id)
    &&& dimension_ok(scope_kind)
    &&& name_ok(scope_id)
    &&& name_ok(subject)
}

/// See [`spec_valid_text`].
pub open spec fn text_ok(s: Seq<char>, max_bytes: nat) -> bool {
    &&& trimmed(s).len() > 0
    &&& encode_utf8(s).len() <= max_bytes
    &&& forall|i: int| 0 <= i < s.len() ==> !is_control(#[trigger] s[i])
}

/// Trimming removes exactly the leading and trailing whitespace: the result
/// is a contiguous part of the input, everything cut off on either side is
/// whitespace, and a non-empty result starts and ends with a character that
/// is not; a result is empty only when the whole input is whitespace.
pub proof fn lemma_trim_removes_only_edge_whitespace(s: Seq<char>)
    ensures
        exists|a: int, b: int|
            0 <= a <= b <= s.len() && trimmed(s) == s.subrange(a, b) && (forall|i: int|
                0 <= i < a ==> is_whitespace(#[trigger] s[i])) && (forall|i: int|
                b <= i < s.len() ==> is_whitespace(#[trigger] s[i])) && (a < b ==> !is_whitespace(
                s[a],
            ) && !is_whitespace(s[b - 1])),
        trimmed(s).len() == 0 <==> forall|i: int| 0 <= i < s.len() ==> is_whitespace(#[trigger] s[i]),
{
    lemma_first_kept_bounds(s, 0);
    lemma_kept_end_bounds(s, s.len() as int);
    let a = first_kept(s, 0);
    if a >= s.len() {
        assert(trimmed(s) == s.subrange(a, a));
        assert(trimmed(s) =~= s.subrange(a, a));
    } else {
        lemma_trim_range(s);
        let b = kept_end(s, s.len() as int);
        assert(trimmed(s) == s.subrange(a, b));
        assert(!is_whitespace(s[a]));
        assert(!(forall|i: int| 0 <= i < s.len() ==> is_whitespace(#[trigger] s[i])));
    }
}

/// A guard decision is accepted only when its ID is a name and it is
/// unambiguous: an allowing decision carries no reason code, and a denying
/// one carries a reason code that is a dimension. Every other combination is
/// rejected.
pub proof fn lemma_guard_decision_fails_closed(
    allowed: bool,
    decision_id: Seq<u8>,
    reason_code: Option<Seq<u8>>,
)
    ensures
        spec_valid_guard_decision(allowed, decision_id, reason_code) <==> (spec_valid_name(
            decision_id,
        ) && ((allowed && reason_code is None) || (!allowed && reason_code is Some
            && spec_valid_dimension(reason_code->0)))),
        (allowed && reason_code is Some) ==> !spec_valid_guard_decision(allowed, decision_id, reason_code),
        (!allowed && reason_code is None) ==> !spec_valid_guard_decision(allowed, decision_id, reason_code),
{
}

/// The integer value of a string of decimal digits.
pub open spec fn digits_value(s: Seq<char>) -> int
    decreases s.len(),
{
    if s.len() == 0 {
        0
    } else {
        digits_value(s.drop_last()) * 10 + (s.last() as u32 - 0x30)
    }
}

/// Decimal digits of `n` read back as `n`, are all `0`-`9`, and have no
/// leading zero.
pub proof fn lemma_decimal_digits_read_back(n: nat)
    ensures
        digits_value(decimal_digits(n)) == n,
        decimal_digits(n).len() >= 1,
        forall|i: int|
            0 <= i < decimal_digits(n).len() ==> 0x30 <= (#[trigger] decimal_digits(n)[i]) as u32
                <= 0x39,
        n > 0 ==> decimal_digits(n)[0] != '0',
    decreases n,
{
    if n >= 10 {
        lemma_decimal_digits_read_back(n / 10);
        let d = decimal_digits(n);
        assert(d.drop_last() =~= decimal_digits(n / 10));
        assert(d.last() == digit_char(n % 10));
        assert((digit_char(n % 10) as u32) == 0x30 + n % 10);
        assert forall|i: int| 0 <= i < d.len() implies 0x30 <= (#[trigger] d[i]) as u32 <= 0x39 by {
            if i < d.len() - 1 {
                assert(d[i] == decimal_digits(n / 10)[i]);
            }
        }
        assert(d[0] == decimal_digits(n / 10)[0]);
        assert(d.len() > 0);
        assert(digits_value(d) == digits_value(d.drop_last()) * 10 + (d.last() as u32 - 0x30));
        assert(digits_value(d) == (n / 10) * 10 + n % 10);
    } else {
        let d = decimal_digits(n);
        assert((digit_char(n) as u32) == 0x30 + n);
        assert(d.drop_last() =~= Seq::<char>::empty());
        assert(d.len() > 0);
        assert(digits_value(d) == digits_value(d.drop_last()) * 10 + (d.last() as u32 - 0x30));
    }
}

/// The decimal text of `v` is its digits, with a leading `-` exactly when
/// `v` is negative, and the digits read back as the magnitude of `v`.
pub proof fn lemma_decimal_text_reads_back(v: int)
    ensures
        (decimal_text(v).len() > 0 && decimal_text(v)[0] == '-') <==> v < 0,
        v >= 0 ==> digits_value(decimal_text(v)) == v,
        v < 0 ==> digits_value(decimal_text(v).drop_first()) == -v,
{
    if v < 0 {
        lemma_decimal_digits_read_back((-v) as nat);
        assert(decimal_text(v).drop_first() =~= decimal_digits((-v) as nat));
    } else {
        lemma_decimal_digits_read_back(v as nat);
        assert((decimal_digits(v as nat)[0] as u32) >= 0x30);
        assert(('-' as u32) == 0x2d);
    }
}

} // verus!
