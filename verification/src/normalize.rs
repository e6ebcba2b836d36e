use vstd::prelude::*;

verus! {

/// The ASCII transliteration of `s`, as `unidecode` yields it.
pub uninterp spec fn fold_of(s: Seq<char>) -> Seq<char>;

/// The Unicode lowercasing of `s`, as `str::to_lowercase` yields it.
pub uninterp spec fn lower_of(s: Seq<char>) -> Seq<char>;

/// Every character of `s` is ASCII.
pub open spec fn ascii_seq(s: Seq<char>) -> bool {
    forall|i: int| 0 <= i < s.len() ==> (#[trigger] s[i]) as int <= 127
}

/// The canonical form of submitted text: accents folded to base
/// letters, then lowercased.
pub open spec fn normal_of(s: Seq<char>) -> Seq<char> {
    lower_of(fold_of(s))
}

/// Relies on unidecode::unidecode: the result depends on the characters
/// alone; it is always pure ASCII, and input that is already pure ASCII
/// comes back unchanged, since every ASCII character maps to itself.
#[verifier::external_body]
pub(crate) fn fold_text(s: &str) -> (r: String)
    ensures
        r@ == fold_of(s@),
        ascii_seq(r@),
        ascii_seq(s@) ==> r@ == s@,
{
    unidecode::unidecode(s)
}

/// Relies on str::to_lowercase: the result depends on the characters
/// alone.
#[verifier::external_body]
fn lowercase(s: &str) -> (r: String)
    ensures
        r@ == lower_of(s@),
{
    s.to_lowercase()
}

/// Normalize submitted text: fold accents away, then lowercase.
pub fn normalize(s: &str) -> (r: String)
    ensures
        r@ == normal_of(s@),
{
    let folded = fold_text(s);
    lowercase(folded.as_str())
}

} // verus!
