//! Client-side checks on names and sizes, made before anything is sent.
use vstd::prelude::*;
use crate::text::{contains_str, has_substring, str_eq};

verus! {

/// Length of a string in bytes, as `str::len` counts it.
pub open spec fn byte_len(s: Seq<char>) -> nat {
    vstd::utf8::encode_utf8(s).len()
}

pub open spec fn is_bucket_char(c: char) -> bool {
    ('a' <= c && c <= 'z') || ('0' <= c && c <= '9') || c == '-'
}

pub open spec fn starts_with(s: Seq<char>, p: Seq<char>) -> bool {
    p.len() <= s.len() && s.subrange(0, p.len() as int) == p
}

pub open spec fn ends_with(s: Seq<char>, p: Seq<char>) -> bool {
    p.len() <= s.len() && s.subrange(s.len() - p.len(), s.len() as int) == p
}

/// The bucket naming rules: 3 to 63 bytes of lower-case letters, digits
/// and hyphens; no hyphen first or last; no `xn--` prefix, `-s3alias`
/// suffix or `..`.
pub open spec fn valid_bucket_name(s: Seq<char>) -> bool {
    &&& 3 <= byte_len(s) <= 63
    &&& forall|i: int| 0 <= i < s.len() ==> is_bucket_char(#[trigger] s[i])
    &&& !starts_with(s, "-"@)
    &&& !ends_with(s, "-"@)
    &&& !starts_with(s, "xn--"@)
    &&& !ends_with(s, "-s3alias"@)
    &&& !has_substring(s, ".."@)
}

/// What `char::is_alphanumeric` says of a character.
pub uninterp spec fn alphanumeric_of(c: char) -> bool;

/// Relies on `char::is_alphanumeric`: a property of the character alone.
#[verifier::external_body]
fn is_alphanumeric(c: char) -> (r: bool)
    ensures
        r == alphanumeric_of(c),
{
    c.is_alphanumeric()
}

pub open spec fn is_index_char(c: char) -> bool {
    alphanumeric_of(c) || c == '-' || c == '_'
}

/// The index naming rules: 1 to 255 bytes of alphanumeric characters,
/// hyphens and underscores.
pub open spec fn valid_index_name(s: Seq<char>) -> bool {
    &&& 1 <= byte_len(s) <= 255
    &&& forall|i: int| 0 <= i < s.len() ==> is_index_char(#[trigger] s[i])
}

fn starts_with_text(s: &str, p: &str) -> (r: bool)
    ensures
        r == starts_with(s@, p@),
{
    let n = s.unicode_len();
    let m = p.unicode_len();
    if m > n {
        false
    } else {
        str_eq(s.substring_char(0, m), p)
    }
}

fn ends_with_text(s: &str, p: &str) -> (r: bool)
    ensures
        r == ends_with(s@, p@),
{
    let n = s.unicode_len();
    let m = p.unicode_len();
    if m > n {
        false
    } else {
        str_eq(s.substring_char(n - m, n), p)
    }
}

fn all_bucket_chars(s: &str) -> (r: bool)
    ensures
        r == forall|i: int| 0 <= i < s@.len() ==> is_bucket_char(#[trigger] s@[i]),
{
    let n = s.unicode_len();
    let mut i: usize = 0;
    while i < n
        invariant
            n == s@.len(),
            i <= n,
            forall|k: int| 0 <= k < i ==> is_bucket_char(#[trigger] s@[k]),
        decreases n - i,
    {
        let c = s.get_char(i);
        if !(('a' <= c && c <= 'z') || ('0' <= c && c <= '9') || c == '-') {
            return false;
        }
        i = i + 1;
    }
    true
}

fn all_index_chars(s: &str) -> (r: bool)
    ensures
        r == forall|i: int| 0 <= i < s@.len() ==> is_index_char(#[trigger] s@[i]),
{
    let n = s.unicode_len();
    let mut i: usize = 0;
    while i < n
        invariant
            n == s@.len(),
            i <= n,
            forall|k: int| 0 <= k < i ==> is_index_char(#[trigger] s@[k]),
        decreases n - i,
    {
        let c = s.get_char(i);
        if !(is_alphanumeric(c) || c == '-' || c == '_') {
            return false;
        }
        i = i + 1;
    }
    true
}

/// Checks a bucket name against the naming rules; the error says which
/// rule failed.
pub fn validate_bucket_name(name: &str) -> (r: Result<(), String>)
    ensures
        r is Ok <==> valid_bucket_name(name@),
{
    let len = name.as_bytes().len();
    if len < 3 || len > 63 {
        return Err("Bucket name must be between 3 and 63 characters long".to_string());
    }
    if !all_bucket_chars(name) {
        return Err(
            "Bucket name can only contain lowercase letters, numbers, and hyphens".to_string(),
        );
    }
    if starts_with_text(name, "-") || ends_with_text(name, "-") {
        return Err("Bucket name cannot start or end with a hyphen".to_string());
    }
    if starts_with_text(name, "xn--") {
        return Err("Bucket name cannot start with 'xn--'".to_string());
    }
    if ends_with_text(name, "-s3alias") {
        return Err("Bucket name cannot end with '-s3alias'".to_string());
    }
    if contains_str(name, "..") {
        return Err("Bucket name cannot contain consecutive periods".to_string());
    }
    Ok(())
}

/// Checks an index name against the naming rules.
pub fn validate_index_name(name: &str) -> (r: Result<(), String>)
    ensures
        r is Ok <==> valid_index_name(name@),
{
    let len = name.as_bytes().len();
    if len == 0 || len > 255 {
        return Err("Index name must be between 1 and 255 characters".to_string());
    }
    if !all_index_chars(name) {
        return Err(
            "Index name can only contain alphanumeric characters, hyphens, and underscores".to_string(),
        );
    }
    Ok(())
}

/// Vector dimensions must lie in 1..=4096.
pub fn validate_dimensions(dimensions: u32) -> (r: Result<(), String>)
    ensures
        r is Ok <==> 1 <= dimensions <= 4096,
{
    if dimensions == 0 || dimensions > 4096 {
        return Err("Vector dimensions must be between 1 and 4096".to_string());
    }
    Ok(())
}

/// Query result counts must lie in 1..=30.
pub fn validate_top_k(top_k: u32) -> (r: Result<(), String>)
    ensures
        r is Ok <==> 1 <= top_k <= 30,
{
    if top_k == 0 || top_k > 30 {
        return Err("Top-k must be between 1 and 30 (preview limitation)".to_string());
    }
    Ok(())
}

/// The regions where the service is offered.
pub open spec fn supported_region(region: Seq<char>) -> bool {
    region == "us-east-1"@ || region == "us-west-2"@
}

/// Checks that the service is offered in `region`.
pub fn validate_region(region: &str) -> (r: Result<(), String>)
    ensures
        r is Ok <==> supported_region(region@),
{
    if !(str_eq(region, "us-east-1") || str_eq(region, "us-west-2")) {
        return Err(
            "S3 Vectors preview is only available in: us-east-1, us-west-2. Please use one of these regions.".to_string(),
        );
    }
    Ok(())
}

} // verus!
