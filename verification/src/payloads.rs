//! Payload identifiers and the callback hostnames built from them.

use vstd::prelude::*;
use crate::text::{
    lemma_lower_idempotent, lemma_trim_lower,
    lemma_trim_trailing_dots, lemma_lower_concat, lemma_lower_dot, lemma_dot_from_none,
    ascii_lower, lower_chars, trim_trailing_dots, ends_with, dot_from, first_label, chars_of,
    string_of, append_chars, lower_char, lower_vec, trimmed_len, take_vec,
};
use rand::{Rng, SeedableRng};

verus! {

/// The number of characters in a generated payload identifier.
pub const PAYLOAD_ID_LEN: usize = 12;

/// A byte of the alphanumeric alphabet `A`..`Z`, `a`..`z`, `0`..`9`.
pub open spec fn is_alphanumeric_byte(b: u8) -> bool {
    (65 <= b && b <= 90) || (97 <= b && b <= 122) || (48 <= b && b <= 57)
}

/// A character that a generated payload identifier may hold:
/// a lower-case ASCII letter or an ASCII digit.
pub open spec fn is_payload_id_char(c: char) -> bool {
    ('a' <= c && c <= 'z') || ('0' <= c && c <= '9')
}

/// The shape of every generated payload identifier.
pub open spec fn is_generated_payload_id(s: Seq<char>) -> bool {
    &&& s.len() == PAYLOAD_ID_LEN
    &&& forall|i: int| 0 <= i < s.len() ==> #[trigger] is_payload_id_char(s[i])
}

/// The callback hostname of a payload: `<payload_id>.<root>` with the
/// trailing dots of the root domain removed.
pub open spec fn fqdn_spec(payload_id: Seq<char>, root_domain: Seq<char>) -> Seq<char> {
    payload_id + seq!['.'] + trim_trailing_dots(root_domain)
}

/// The payload identifier that a host or DNS name addresses under a root
/// domain: both are compared without trailing dots and in ASCII lower case;
/// the name must end with `.` followed by the root, and the identifier is the
/// first label of what stands before that suffix, when it is not empty.
pub open spec fn payload_id_of(host_or_name: Seq<char>, root_domain: Seq<char>) -> Option<Seq<char>> {
    let name = lower_chars(trim_trailing_dots(host_or_name));
    let suffix = seq!['.'] + lower_chars(trim_trailing_dots(root_domain));
    if ends_with(name, suffix) {
        let label = first_label(name.take(name.len() - suffix.len()));
        if label.len() > 0 {
            Some(label)
        } else {
            None
        }
    } else {
        None
    }
}

/// Draws `n` bytes of the alphanumeric alphabet from a generator seeded by
/// the operating system (`StdRng::from_rng(OsRng)`, then
/// `sample_iter(&Alphanumeric).take(n)`). Claimed: `None` only when seeding
/// fails; otherwise `n` bytes, each of `A`..`Z`, `a`..`z` or `0`..`9`. Which
/// bytes, and whether seeding fails, is left open: chance and the system.
#[verifier::external_body]
fn sample_alphanumeric(n: usize) -> (bytes: Option<Vec<u8>>)
    ensures
        bytes matches Some(b) ==> b.len() == n && forall|i: int| 0 <= i < b.len() ==> #[trigger] is_alphanumeric_byte(b[i]),
{
    let rng = rand::rngs::StdRng::from_rng(rand::rngs::OsRng).ok()?;
    Some(rng.sample_iter(&rand::distributions::Alphanumeric).take(n).collect())
}

/// The payload identifier made of sampled alphanumeric bytes: each byte as
/// an ASCII character, lower-cased.
pub open spec fn payload_id_of_sample(bytes: Seq<u8>) -> Seq<char> {
    bytes.map_values(|b: u8| ascii_lower(b as char))
}

/// The payload identifier made of sampled alphanumeric bytes (see
/// `payload_id_of_sample`); it has the shape of a generated identifier.
pub fn payload_id_from_sample(bytes: &Vec<u8>) -> (id: String)
    requires
        bytes.len() == PAYLOAD_ID_LEN,
        forall|i: int| 0 <= i < bytes.len() ==> #[trigger] is_alphanumeric_byte(bytes[i]),
    ensures
        id@ == payload_id_of_sample(bytes@),
        is_generated_payload_id(id@),
{
    let mut chars: Vec<char> = Vec::new();
    let mut i: usize = 0;
    while i < bytes.len()
        invariant
            i <= bytes.len() == PAYLOAD_ID_LEN,
            chars@ == payload_id_of_sample(bytes@.take(i as int)),
            forall|j: int| 0 <= j < bytes.len() ==> #[trigger] is_alphanumeric_byte(bytes[j]),
            forall|j: int| 0 <= j < i ==> #[trigger] is_payload_id_char(chars[j]),
        decreases bytes.len() - i,
    {
        let b: u8 = bytes[i];
        assert(is_alphanumeric_byte(b));
        let c = lower_char(b as char);
        chars.push(c);
        i = i + 1;
        assert(chars@ =~= payload_id_of_sample(bytes@.take(i as int)));
    }
    assert(bytes@.take(bytes.len() as int) =~= bytes@);
    string_of(&chars)
}

/// A fresh random payload identifier: twelve characters, each a lower-case
/// ASCII letter or a digit, made from a random sample by
/// `payload_id_from_sample`; `None` when no random source can be seeded.
pub fn generate_payload_id() -> (id: Option<String>)
    ensures
        id matches Some(s) ==> is_generated_payload_id(s@),
{
    match sample_alphanumeric(PAYLOAD_ID_LEN) {
        Some(bytes) => Some(payload_id_from_sample(&bytes)),
        None => None,
    }
}

/// The callback hostname `<payload_id>.<root_domain>`, with the trailing
/// dots of the root domain removed.
pub fn fqdn(payload_id: &str, root_domain: &str) -> (name: String)
    ensures
        name@ == fqdn_spec(payload_id@, root_domain@),
{
    let mut out = chars_of(payload_id);
    out.push('.');
    let root = chars_of(root_domain);
    let n: usize = trimmed_len(&root);
    let root_trimmed = take_vec(&root, n);
    append_chars(&mut out, &root_trimmed);
    string_of(&out)
}

/// The payload identifier addressed by a host or DNS name under the root
/// domain, if any (see `payload_id_of`).
pub fn extract_payload_id(host_or_name: &str, root_domain: &str) -> (id: Option<String>)
    ensures
        match id {
            Some(s) => payload_id_of(host_or_name@, root_domain@) == Some(s@),
            None => payload_id_of(host_or_name@, root_domain@) is None,
        },
{
    let host = chars_of(host_or_name);
    let host_n: usize = trimmed_len(&host);
    let name = lower_vec(&take_vec(&host, host_n));
    let root = chars_of(root_domain);
    let root_n: usize = trimmed_len(&root);
    let mut suffix: Vec<char> = Vec::new();
    suffix.push('.');
    append_chars(&mut suffix, &lower_vec(&take_vec(&root, root_n)));
    assert(suffix@ =~= seq!['.'] + lower_chars(trim_trailing_dots(root_domain@)));
    assert(name@ == lower_chars(trim_trailing_dots(host_or_name@)));
    if suffix.len() > name.len() {
        return None;
    }
    let start: usize = name.len() - suffix.len();
    let mut k: usize = 0;
    while k < suffix.len()
        invariant
            start + suffix.len() == name.len(),
            k <= suffix.len(),
            name@ == lower_chars(trim_trailing_dots(host_or_name@)),
            suffix@ == seq!['.'] + lower_chars(trim_trailing_dots(root_domain@)),
            forall|j: int| 0 <= j < k ==> name@[start + j] == suffix@[j],
        decreases suffix.len() - k,
    {
        if name[start + k] != suffix[k] {
            assert(name@.subrange(start as int, name.len() as int)[k as int] != suffix@[k as int]);
            assert(name@.subrange(start as int, name.len() as int) != suffix@);
            assert(!ends_with(name@, suffix@));
            return None;
        }
        k = k + 1;
    }
    assert(name@.subrange(start as int, name.len() as int) =~= suffix@);
    let mut end: usize = 0;
    let ghost prefix = name@.take(start as int);
    while end < start && name[end] != '.'
        invariant
            end <= start <= name.len(),
            prefix == name@.take(start as int),
            dot_from(prefix, 0) == dot_from(prefix, end as int),
        decreases start - end,
    {
        end = end + 1;
    }
    assert(dot_from(prefix, end as int) == end);
    if end == 0 {
        return None;
    }
    let label = take_vec(&name, end);
    assert(label@ =~= first_label(prefix));
    Some(string_of(&label))
}

/// A payload's callback hostname addresses that payload: for an identifier
/// that is not empty and holds no dot, under a root domain that is not empty
/// once its trailing dots are removed, the identifier read back from
/// `<payload_id>.<root_domain>` is the identifier in ASCII lower case.
pub proof fn law_fqdn_addresses_its_payload(payload_id: Seq<char>, root_domain: Seq<char>)
    requires
        payload_id.len() > 0,
        forall|i: int| 0 <= i < payload_id.len() ==> payload_id[i] != '.',
        trim_trailing_dots(root_domain).len() > 0,
    ensures
        payload_id_of(fqdn_spec(payload_id, root_domain), root_domain) == Some(
            lower_chars(payload_id),
        ),
{
    let t = trim_trailing_dots(root_domain);
    let host = fqdn_spec(payload_id, root_domain);
    lemma_trim_trailing_dots(root_domain);
    assert(host.last() == t.last());
    assert(trim_trailing_dots(host) == host);
    let lt = lower_chars(t);
    lemma_lower_concat(payload_id + seq!['.'], t);
    lemma_lower_concat(payload_id, seq!['.']);
    assert(lower_chars(seq!['.']) =~= seq!['.']);
    let name = lower_chars(host);
    let suffix = seq!['.'] + lt;
    assert(name == lower_chars(payload_id) + suffix);
    assert(name.subrange(name.len() - suffix.len(), name.len() as int) =~= suffix);
    assert(name.take(name.len() - suffix.len()) =~= lower_chars(payload_id));
    let lp = lower_chars(payload_id);
    assert forall|j: int| 0 <= j < lp.len() implies lp[j] != '.' by {
        lemma_lower_dot(payload_id[j]);
    }
    lemma_dot_from_none(lp, 0);
    assert(first_label(lp) =~= lp);
}

/// Every generated payload identifier is read back unchanged from its
/// callback hostname, under any root domain that is not empty once its
/// trailing dots are removed.
pub proof fn law_generated_id_round_trips(payload_id: Seq<char>, root_domain: Seq<char>)
    requires
        is_generated_payload_id(payload_id),
        trim_trailing_dots(root_domain).len() > 0,
    ensures
        payload_id_of(fqdn_spec(payload_id, root_domain), root_domain) == Some(payload_id),
{
    assert forall|i: int| 0 <= i < payload_id.len() implies payload_id[i] != '.' by {
        assert(is_payload_id_char(payload_id[i]));
    }
    law_fqdn_addresses_its_payload(payload_id, root_domain);
    assert forall|i: int| 0 <= i < payload_id.len() implies ascii_lower(payload_id[i]) == payload_id[i] by {
        assert(is_payload_id_char(payload_id[i]));
    }
    assert(lower_chars(payload_id) =~= payload_id);
}

/// Trailing dots on the name do not change which payload it addresses.
pub proof fn law_trailing_dot_ignored(host_or_name: Seq<char>, root_domain: Seq<char>)
    ensures
        payload_id_of(host_or_name.push('.'), root_domain) == payload_id_of(host_or_name, root_domain),
{
    assert(host_or_name.push('.').drop_last() =~= host_or_name);
}

/// Names and root domains are matched without regard to ASCII case:
/// lower-casing either one does not change which payload is addressed.
pub proof fn law_case_insensitive(host_or_name: Seq<char>, root_domain: Seq<char>)
    ensures
        payload_id_of(lower_chars(host_or_name), root_domain) == payload_id_of(host_or_name, root_domain),
        payload_id_of(host_or_name, lower_chars(root_domain)) == payload_id_of(host_or_name, root_domain),
{
    lemma_trim_lower(host_or_name);
    lemma_lower_idempotent(trim_trailing_dots(host_or_name));
    lemma_trim_lower(root_domain);
    lemma_lower_idempotent(trim_trailing_dots(root_domain));
}

} // verus!
