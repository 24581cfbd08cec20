//! Taking a photo file in: the draft of the product that the file stands
//! for. Reading the file is the caller's part.

use vstd::prelude::*;
use crate::codec::{encode, encoded, text_len};
use crate::media_type::{image_media_type, image_media_type_of};
use crate::models::{text_view, ProductDraft, ProductDraftView};

verus! {

/// The draft of a product that is known by its photo alone: its name and
/// price, the photo's bytes as text, and the media type of an image file
/// with the given extension. All else is left open.
pub open spec fn photo_draft(
    nome: Seq<char>,
    extension: Seq<char>,
    bytes: Seq<u8>,
    preco: nat,
) -> ProductDraftView {
    ProductDraftView {
        nome,
        preco,
        categoria: None,
        fornecedor: None,
        descricao: None,
        foto: Some(encoded(bytes)),
        formato_imagem: Some(image_media_type_of(extension)),
        data_criacao: None,
    }
}

/// The name of a product taken in from a file: the name supplied, or the
/// file's name without its extension where none is supplied.
pub open spec fn name_or_stem(supplied: Option<Seq<char>>, stem: Seq<char>) -> Seq<char> {
    match supplied {
        Some(nome) => nome,
        None => stem,
    }
}

/// Whether `piece` stands somewhere in `whole`, in one piece.
pub open spec fn is_piece_of(piece: Seq<char>, whole: Seq<char>) -> bool {
    exists|i: int, j: int| 0 <= i <= j <= whole.len() && #[trigger] whole.subrange(i, j) == piece
}

/// The name of a file with the given name without extension and the given
/// extension: the two with a dot between them.
pub open spec fn file_name_of(stem: Seq<char>, extension: Seq<char>) -> Seq<char> {
    stem + seq!['.'] + extension
}

/// Calls `std::path::Path::file_name` on `path`: the last component of the
/// path, if it has one that is a name.
///
/// Trusted: the component is a piece of the path. Which piece it is depends
/// on the platform's rules for paths, and nothing is claimed of that.
#[verifier::external_body]
fn path_file_name(path: &str) -> (name: Option<String>)
    ensures
        name matches Some(n) ==> is_piece_of(n@, path@),
{
    std::path::Path::new(path).file_name().and_then(|s| s.to_str()).map(|s| s.to_owned())
}

/// Calls `std::path::Path::file_stem` on `path`: the name of the file
/// without its extension, if the path names a file.
///
/// Trusted, with nothing claimed of the result: [`draft_from_parts`] tests
/// whether it fits the file's name.
#[verifier::external_body]
fn path_file_stem(path: &str) -> (stem: Option<String>) {
    std::path::Path::new(path).file_stem().and_then(|s| s.to_str()).map(|s| s.to_owned())
}

/// Calls `std::path::Path::extension` on `path`: what follows the last dot
/// of the file's name, if there is any.
///
/// Trusted, with nothing claimed of the result: [`draft_from_parts`] tests
/// whether it fits the file's name.
#[verifier::external_body]
fn path_extension(path: &str) -> (extension: Option<String>) {
    std::path::Path::new(path).extension().and_then(|s| s.to_str()).map(|s| s.to_owned())
}

/// Drafts the product that a photo stands for, from the product's name, the
/// photo file's extension and the file's bytes.
pub fn draft_from_photo(nome: String, extension: &str, bytes: &[u8], preco: u64) -> (draft:
    ProductDraft)
    requires
        text_len(bytes@.len()) <= isize::MAX,
    ensures
        draft@ == photo_draft(nome@, extension@, bytes@, preco as nat),
{
    ProductDraft {
        nome,
        preco,
        categoria: None,
        fornecedor: None,
        descricao: None,
        foto: Some(encode(bytes)),
        formato_imagem: Some(image_media_type(extension)),
        data_criacao: None,
    }
}

/// The view of an optional draft.
pub open spec fn draft_view(draft: Option<ProductDraft>) -> Option<ProductDraftView> {
    match draft {
        Some(d) => Some(d@),
        None => None,
    }
}

/// The draft for a photo file of which the name, the name without
/// extension and the extension are known, or are known to be missing: there
/// is a draft exactly when the file has all three and its name is the name
/// without extension, a dot and the extension.
pub open spec fn draft_of_parts(
    file_name: Option<Seq<char>>,
    stem: Option<Seq<char>>,
    extension: Option<Seq<char>>,
    bytes: Seq<u8>,
    nome: Option<Seq<char>>,
    preco: nat,
) -> Option<ProductDraftView> {
    if file_name is Some && stem is Some && extension is Some && file_name->0 == file_name_of(
        stem->0,
        extension->0,
    ) {
        Some(photo_draft(name_or_stem(nome, stem->0), extension->0, bytes, preco))
    } else {
        None
    }
}

/// Drafts the product that a photo file stands for, from the file's name,
/// the parts of that name and the file's bytes. The product is named `nome`
/// or, where no name is supplied, like the file without its extension.
///
/// A file without a name or without an extension gives `None`, and so do
/// parts that do not make up the file's name.
pub fn draft_from_parts(
    file_name: Option<String>,
    stem: Option<String>,
    extension: Option<String>,
    bytes: &[u8],
    nome: Option<String>,
    preco: u64,
) -> (r: Option<ProductDraft>)
    requires
        text_len(bytes@.len()) <= isize::MAX,
    ensures
        draft_view(r) == draft_of_parts(
            text_view(file_name),
            text_view(stem),
            text_view(extension),
            bytes@,
            text_view(nome),
            preco as nat,
        ),
{
    match (file_name, stem, extension) {
        (Some(file_name), Some(stem), Some(extension)) => {
            proof {
                reveal_strlit(".");
            }
            let mut made = String::from_str(stem.as_str());
            made.append(".");
            made.append(extension.as_str());
            assert(made@ =~= file_name_of(stem@, extension@));
            if made != file_name {
                return None;
            }
            let chosen = match nome {
                Some(nome) => nome,
                None => stem,
            };
            Some(draft_from_photo(chosen, extension.as_str(), bytes, preco))
        },
        _ => None,
    }
}

/// Drafts the product that the photo file at `path` stands for, from the
/// file's bytes. The product is named `nome` or, where no name is supplied,
/// like the file without its extension.
///
/// A path that names no file, or a file without an extension, gives `None`.
/// Which piece of a path is the file's name is for the platform to say; the
/// name and the extension of a draft that is made are parts of that piece.
pub fn draft_from_file(path: &str, bytes: &[u8], nome: Option<String>, preco: u64) -> (r: Option<
    ProductDraft,
>)
    requires
        text_len(bytes@.len()) <= isize::MAX,
    ensures
        exists|file_name: Option<Seq<char>>, stem: Option<Seq<char>>, extension: Option<Seq<char>>|
            {
                &&& file_name matches Some(name) ==> is_piece_of(name, path@)
                &&& draft_view(r) == #[trigger] draft_of_parts(
                    file_name,
                    stem,
                    extension,
                    bytes@,
                    text_view(nome),
                    preco as nat,
                )
            },
        r matches Some(draft) ==> exists|stem: Seq<char>, extension: Seq<char>|
            {
                &&& is_piece_of(#[trigger] file_name_of(stem, extension), path@)
                &&& draft@ == photo_draft(
                    name_or_stem(text_view(nome), stem),
                    extension,
                    bytes@,
                    preco as nat,
                )
            },
{
    let file_name = path_file_name(path);
    let stem = path_file_stem(path);
    let extension = path_extension(path);
    let ghost parts = (text_view(file_name), text_view(stem), text_view(extension));
    let r = draft_from_parts(file_name, stem, extension, bytes, nome, preco);
    proof {
        let made = draft_of_parts(parts.0, parts.1, parts.2, bytes@, text_view(nome), preco as nat);
        assert(draft_view(r) == made);
        if r is Some {
            assert(is_piece_of(file_name_of(parts.1->0, parts.2->0), path@));
        }
    }
    r
}

} // verus!
