//! Which optimisation engine a file goes to, and which files a scan keeps.
use crate::format::{
    ascii_lowercase, format_of_extension, format_of_lowercase, is_ascii_text, to_lowercase,
    unicode_lowercase, ImageFormat,
};
use crate::path::{path_extension, path_extension_of};
use crate::text::str_eq;
use vstd::prelude::*;

verus! {

/// The optimisation engines.
#[derive(Debug, PartialEq, Eq, Structural, Clone, Copy)]
pub enum Engine {
    Png,
    Jpeg,
    Webp,
    Pdf,
}

/// A file whose extension names no supported format.
#[derive(Debug, PartialEq, Eq, Structural, Clone, Copy)]
pub struct UnsupportedFormat;

/// The extension of a path, or the empty text where it has none.
pub open spec fn extension_or_empty(path: Seq<char>) -> Seq<char> {
    match path_extension(path) {
        Some(e) => e,
        None => Seq::empty(),
    }
}

/// The engine of a format; none for `Unknown`.
pub open spec fn engine_of(f: ImageFormat) -> Option<Engine> {
    match f {
        ImageFormat::Png => Some(Engine::Png),
        ImageFormat::Jpeg => Some(Engine::Jpeg),
        ImageFormat::Webp => Some(Engine::Webp),
        ImageFormat::Pdf => Some(Engine::Pdf),
        ImageFormat::Unknown => None,
    }
}

/// Routes a file to the engine of the format that its extension names.
pub fn optimize_image(path: &str) -> (r: Result<Engine, UnsupportedFormat>)
    ensures
        match engine_of(format_of_extension(extension_or_empty(path@))) {
            Some(e) => r == Ok::<Engine, UnsupportedFormat>(e),
            None => r == Err::<Engine, UnsupportedFormat>(UnsupportedFormat),
        },
        is_ascii_text(extension_or_empty(path@)) ==> match engine_of(
            format_of_lowercase(ascii_lowercase(extension_or_empty(path@))),
        ) {
            Some(e) => r == Ok::<Engine, UnsupportedFormat>(e),
            None => r == Err::<Engine, UnsupportedFormat>(UnsupportedFormat),
        },
{
    let format = match path_extension_of(path) {
        Some(e) => ImageFormat::from_extension(e.as_str()),
        None => ImageFormat::from_extension(""),
    };
    proof {
        reveal_strlit("");
        assert(""@ =~= Seq::<char>::empty());
    }
    match format {
        ImageFormat::Png => Ok(Engine::Png),
        ImageFormat::Jpeg => Ok(Engine::Jpeg),
        ImageFormat::Webp => Ok(Engine::Webp),
        ImageFormat::Pdf => Ok(Engine::Pdf),
        ImageFormat::Unknown => Err(UnsupportedFormat),
    }
}

/// The types that a scan keeps when none are given: png, jpg, jpeg, webp, pdf.
pub open spec fn is_default_type(e: Seq<char>) -> bool {
    format_of_lowercase(e) != ImageFormat::Unknown
}

/// The texts of a list of strings.
pub open spec fn texts(v: Seq<String>) -> Seq<Seq<char>> {
    v.map_values(|s: String| s@)
}

/// The types a scan is restricted to, where it is.
pub open spec fn types_view(t: Option<Vec<String>>) -> Option<Seq<Seq<char>>> {
    match t {
        Some(v) => Some(texts(v@)),
        None => None,
    }
}

/// A scan keeps a file whose lowercased extension is one of the given types (compared
/// exactly), or one of the default types where none are given.
pub open spec fn accepts(path: Seq<char>, types: Option<Seq<Seq<char>>>) -> bool {
    match path_extension(path) {
        None => false,
        Some(e) => {
            let lower = unicode_lowercase(e);
            match types {
                Some(t) => t.contains(lower),
                None => is_default_type(lower),
            }
        },
    }
}

fn contains_text(types: &Vec<String>, e: &str) -> (r: bool)
    ensures
        r == texts(types@).contains(e@),
{
    let mut i: usize = 0;
    while i < types.len()
        invariant
            i <= types@.len(),
            forall|k: int| 0 <= k < i ==> types@[k]@ != e@,
        decreases types@.len() - i,
    {
        if str_eq(types[i].as_str(), e) {
            assert(texts(types@)[i as int] == e@);
            return true;
        }
        i += 1;
    }
    assert forall|k: int| 0 <= k < texts(types@).len() implies texts(types@)[k] != e@ by {
        assert(texts(types@)[k] == types@[k]@);
    }
    false
}

/// [`accepts`] for an extension in ASCII, whose lowercase form is the ASCII one.
pub open spec fn accepts_ascii(path: Seq<char>, types: Option<Seq<Seq<char>>>) -> bool {
    match path_extension(path) {
        None => false,
        Some(e) => {
            let lower = ascii_lowercase(e);
            match types {
                Some(t) => t.contains(lower),
                None => is_default_type(lower),
            }
        },
    }
}

/// Whether a scan keeps the file at `path`.
pub fn is_supported_file(path: &str, types: &Option<Vec<String>>) -> (r: bool)
    ensures
        r == accepts(path@, types_view(*types)),
        is_ascii_text(extension_or_empty(path@)) ==> r == accepts_ascii(path@, types_view(*types)),
{
    match path_extension_of(path) {
        None => false,
        Some(e) => {
            let lower = to_lowercase(e.as_str());
            match types {
                Some(t) => contains_text(t, lower.as_str()),
                None => crate::format::format_from_lowercase(lower.as_str()) != ImageFormat::Unknown,
            }
        },
    }
}

/// Keeps, in order, the files of a directory walk whose extension is supported: one
/// of `custom_types` where they are given, else png, jpg, jpeg, webp or pdf. The
/// extension is lowercased first; the given types are compared as they are.
pub fn find_supported_files(files: Vec<String>, custom_types: Option<Vec<String>>) -> (r: Vec<
    String,
>)
    ensures
        texts(r@) == texts(files@).filter(|p: Seq<char>| accepts(p, types_view(custom_types))),
        (forall|i: int| 0 <= i < files@.len() ==> is_ascii_text(extension_or_empty(#[trigger] files@[i]@)))
            ==> texts(r@) == texts(files@).filter(|p: Seq<char>| accepts_ascii(p, types_view(custom_types))),
{
    let ghost keep = |p: Seq<char>| accepts(p, types_view(custom_types));
    let mut out: Vec<String> = Vec::new();
    let mut i: usize = 0;
    while i < files.len()
        invariant
            i <= files@.len(),
            keep == (|p: Seq<char>| accepts(p, types_view(custom_types))),
            texts(out@) == texts(files@).take(i as int).filter(keep),
            forall|k: int|
                0 <= k < i && is_ascii_text(extension_or_empty(#[trigger] files@[k]@)) ==> accepts(
                    files@[k]@,
                    types_view(custom_types),
                ) == accepts_ascii(files@[k]@, types_view(custom_types)),
        decreases files@.len() - i,
    {
        proof {
            reveal_with_fuel(Seq::<_>::filter, 1);
            assert(texts(files@).take(i + 1).drop_last() =~= texts(files@).take(i as int));
            assert(texts(files@).take(i + 1).last() == files@[i as int]@);
        }
        if is_supported_file(files[i].as_str(), &custom_types) {
            let ghost before = out@;
            out.push(files[i].clone());
            assert(texts(out@) =~= texts(before).push(files@[i as int]@));
        }
        i += 1;
    }
    assert(texts(files@).take(files@.len() as int) =~= texts(files@));
    proof {
        if forall|i: int| 0 <= i < files@.len() ==> is_ascii_text(extension_or_empty(#[trigger] files@[i]@)) {
            assert forall|k: int| 0 <= k < texts(files@).len() implies accepts(
                #[trigger] texts(files@)[k],
                types_view(custom_types),
            ) == accepts_ascii(texts(files@)[k], types_view(custom_types)) by {
                assert(texts(files@)[k] == files@[k]@);
                assert(is_ascii_text(extension_or_empty(files@[k]@)));
            }
            lemma_filters_agree(
                texts(files@),
                |p: Seq<char>| accepts(p, types_view(custom_types)),
                |p: Seq<char>| accepts_ascii(p, types_view(custom_types)),
            );
        }
    }
    out
}

/// Two predicates that agree on every element of `s` keep the same elements.
proof fn lemma_filters_agree(s: Seq<Seq<char>>, f: spec_fn(Seq<char>) -> bool, g: spec_fn(Seq<char>) -> bool)
    requires
        forall|i: int| 0 <= i < s.len() ==> f(#[trigger] s[i]) == g(s[i]),
    ensures
        s.filter(f) == s.filter(g),
    decreases s.len(),
{
    reveal_with_fuel(Seq::<_>::filter, 1);
    if s.len() > 0 {
        lemma_filters_agree(s.drop_last(), f, g);
        assert(f(s[s.len() - 1]) == g(s[s.len() - 1]));
    }
}

} // verus!
