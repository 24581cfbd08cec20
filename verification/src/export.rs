//! Exporting a product's photo: which file to write, and the bytes to put
//! in it. Writing the file is the caller's part.

use vstd::prelude::*;
use crate::codec::{
    decode, decoded, encoded, lemma_decodable_iff_well_formed, lemma_encoded_len,
    lemma_round_trip, well_formed, CodecError,
};
use crate::import::photo_draft;
use crate::media_type::{
    extension_of, file_extension, image_prefix, lemma_composed_names_encoding,
    lemma_extension_of_image_media_type,
};
use crate::models::{photo_rule, Produto, ProdutoView};
use crate::store::row_of;

verus! {

/// A file that is ready to be written.
#[derive(Debug, PartialEq, Eq)]
pub struct PictureFile {
    /// Where the file goes.
    pub path: String,
    /// What the file holds.
    pub bytes: Vec<u8>,
}

/// The view of a [`PictureFile`].
pub struct PictureFileView {
    pub path: Seq<char>,
    pub bytes: Seq<u8>,
}

impl View for PictureFile {
    type V = PictureFileView;

    open spec fn view(&self) -> PictureFileView {
        PictureFileView { path: self.path@, bytes: self.bytes@ }
    }
}

/// Whether a product has a photo to export: a photo that is not empty, and
/// a media type to take the file's extension from.
pub open spec fn has_photo(product: ProdutoView) -> bool {
    &&& product.foto matches Some(text) && text.len() > 0
    &&& product.formato_imagem is Some
}

/// The path of an exported photo: the directory, a slash, the product's
/// name, a dot and the extension that the media type gives.
pub open spec fn export_path(
    output_dir: Seq<char>,
    nome: Seq<char>,
    media_type: Seq<char>,
) -> Seq<char> {
    output_dir + seq!['/'] + nome + seq!['.'] + extension_of(media_type)
}

/// What the export of a product's photo to `output_dir` gives: nothing for
/// a product without a photo, the error for a photo whose text is
/// malformed, and else the file with its path and the photo's bytes.
pub open spec fn export_of(product: ProdutoView, output_dir: Seq<char>) -> Result<
    Option<PictureFileView>,
    CodecError,
> {
    if !has_photo(product) {
        Ok(None)
    } else {
        match decoded(product.foto->0) {
            Some(bytes) => Ok(
                Some(
                    PictureFileView {
                        path: export_path(output_dir, product.nome, product.formato_imagem->0),
                        bytes,
                    },
                ),
            ),
            None => Err(CodecError),
        }
    }
}

/// The view of what an export returned.
pub open spec fn export_view(r: Result<Option<PictureFile>, CodecError>) -> Result<
    Option<PictureFileView>,
    CodecError,
> {
    match r {
        Ok(Some(file)) => Ok(Some(file@)),
        Ok(None) => Ok(None),
        Err(e) => Err(e),
    }
}

/// Prepares the export of a product's photo to the directory `output_dir`.
///
/// A product without a photo, or with an empty one, or with a photo but no
/// media type, yields `Ok(None)`: there is nothing to write. A photo whose
/// text is malformed yields the error, never an empty file. Otherwise the
/// result names the file and holds the photo's bytes.
pub fn export_picture(product: &Produto, output_dir: &str) -> (r: Result<
    Option<PictureFile>,
    CodecError,
>)
    ensures
        export_view(r) == export_of(product@, output_dir@),
        r is Err <==> has_photo(product@) && !well_formed(product@.foto->0),
{
    let (text, media_type) = match (&product.foto, &product.formato_imagem) {
        (Some(text), Some(media_type)) => (text, media_type),
        _ => {
            return Ok(None);
        },
    };
    if text.as_str().is_empty() {
        return Ok(None);
    }
    let bytes = match decode(text.as_str()) {
        Ok(bytes) => bytes,
        Err(e) => {
            return Err(e);
        },
    };
    proof {
        reveal_strlit("/");
        reveal_strlit(".");
    }
    let extension = file_extension(media_type.as_str());
    let mut path = String::from_str(output_dir);
    path.append("/");
    path.append(product.nome.as_str());
    path.append(".");
    path.append(extension.as_str());
    assert(path@ =~= export_path(output_dir@, product@.nome, product@.formato_imagem->0));
    Ok(Some(PictureFile { path, bytes }))
}

/// The round trip through the export: a product whose photo is the text of
/// bytes that are not none, and which has a media type, is exported to a
/// file that holds exactly those bytes.
pub proof fn lemma_export_round_trip(product: ProdutoView, bytes: Seq<u8>, output_dir: Seq<char>)
    requires
        bytes.len() > 0,
        product.foto == Some(encoded(bytes)),
        product.formato_imagem is Some,
    ensures
        export_of(product, output_dir) == Ok::<Option<PictureFileView>, CodecError>(
            Some(
                PictureFileView {
                    path: export_path(output_dir, product.nome, product.formato_imagem->0),
                    bytes,
                },
            ),
        ),
{
    lemma_encoded_len(bytes);
    lemma_round_trip(bytes);
}

/// The export fails exactly on a photo that is there and is malformed.
pub proof fn lemma_export_fails_on_malformed_only(product: ProdutoView, output_dir: Seq<char>)
    ensures
        export_of(product, output_dir) is Err <==> has_photo(product) && !well_formed(
            product.foto->0,
        ),
{
    if has_photo(product) {
        lemma_decodable_iff_well_formed(product.foto->0);
    }
}

/// A photo comes out of the catalogue as it went in. The draft of a photo
/// file keeps the rule on photos, so that no store refuses it for its photo.
/// The row that is kept for it, if the file is not empty, has a photo to
/// export; the exported file holds the bytes of the file that was taken in,
/// and is named after the product, with the extension of that file.
pub proof fn lemma_photo_survives(
    nome: Seq<char>,
    extension: Seq<char>,
    bytes: Seq<u8>,
    preco: nat,
    id: int,
    now: chrono::NaiveDateTime,
    output_dir: Seq<char>,
)
    requires
        bytes.len() > 0,
    ensures
        ({
            let row = row_of(photo_draft(nome, extension, bytes, preco), id, now);
            &&& photo_rule(row.foto, row.formato_imagem)
            &&& has_photo(row)
            &&& decoded(row.foto->0) == Some(bytes)
            &&& export_path(output_dir, row.nome, row.formato_imagem->0) == output_dir + seq!['/']
                + nome + seq!['.'] + extension
        }),
{
    lemma_encoded_len(bytes);
    lemma_round_trip(bytes);
    lemma_extension_of_image_media_type(extension);
    lemma_composed_names_encoding(image_prefix() + extension);
}

} // verus!
