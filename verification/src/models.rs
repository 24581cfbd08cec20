//! The rows of the catalogue and their mathematical views.
//!
//! Every row type has a view that holds integers as `int` or `nat` and text
//! as `Seq<char>`; the contracts of the store and of the photo export speak
//! of these views.

use vstd::prelude::*;
use crate::media_type::{has_encoding_name, names_encoding};

verus! {

/// The timestamp of the `chrono` crate that carries no time zone. A row
/// carries it through; nothing in this crate reads it, and nothing in it
/// reads the clock: the caller says what time it is.
#[verifier::external_type_specification]
#[verifier::external_body]
pub struct ExNaiveDateTime(chrono::NaiveDateTime);

/// The view of an optional identifier.
pub open spec fn id_view(id: Option<i32>) -> Option<int> {
    match id {
        Some(n) => Some(n as int),
        None => None,
    }
}

/// The view of an optional text.
pub open spec fn text_view(text: Option<String>) -> Option<Seq<char>> {
    match text {
        Some(s) => Some(s@),
        None => None,
    }
}

/// Copies an optional text.
pub(crate) fn clone_text(text: &Option<String>) -> (copy: Option<String>)
    ensures
        copy == *text,
{
    match text {
        Some(s) => Some(s.clone()),
        None => None,
    }
}

/// A category of products.
#[derive(Debug, PartialEq, Eq)]
pub struct Categoria {
    pub id: i32,
    pub nome: String,
}

/// The view of a [`Categoria`].
pub struct CategoriaView {
    pub id: int,
    pub nome: Seq<char>,
}

impl View for Categoria {
    type V = CategoriaView;

    open spec fn view(&self) -> CategoriaView {
        CategoriaView { id: self.id as int, nome: self.nome@ }
    }
}

impl DeepView for Categoria {
    type V = CategoriaView;

    open spec fn deep_view(&self) -> CategoriaView {
        self@
    }
}

impl Clone for Categoria {
    fn clone(&self) -> (copy: Self)
        ensures
            copy == *self,
    {
        Categoria { id: self.id, nome: self.nome.clone() }
    }
}

/// A supplier of products. `cnpj` is its tax identifier.
#[derive(Debug, PartialEq, Eq)]
pub struct Fornecedor {
    pub id: i32,
    pub cnpj: String,
    pub nome: String,
    pub email: Option<String>,
}

/// The view of a [`Fornecedor`].
pub struct FornecedorView {
    pub id: int,
    pub cnpj: Seq<char>,
    pub nome: Seq<char>,
    pub email: Option<Seq<char>>,
}

impl View for Fornecedor {
    type V = FornecedorView;

    open spec fn view(&self) -> FornecedorView {
        FornecedorView {
            id: self.id as int,
            cnpj: self.cnpj@,
            nome: self.nome@,
            email: text_view(self.email),
        }
    }
}

impl DeepView for Fornecedor {
    type V = FornecedorView;

    open spec fn deep_view(&self) -> FornecedorView {
        self@
    }
}

impl Clone for Fornecedor {
    fn clone(&self) -> (copy: Self)
        ensures
            copy == *self,
    {
        Fornecedor {
            id: self.id,
            cnpj: self.cnpj.clone(),
            nome: self.nome.clone(),
            email: clone_text(&self.email),
        }
    }
}

/// A unit of measure. `sigla` is its abbreviation.
#[derive(Debug, PartialEq, Eq)]
pub struct Unidademedida {
    pub id: i32,
    pub descricao: String,
    pub sigla: Option<String>,
}

/// The view of a [`Unidademedida`].
pub struct UnidademedidaView {
    pub id: int,
    pub descricao: Seq<char>,
    pub sigla: Option<Seq<char>>,
}

impl View for Unidademedida {
    type V = UnidademedidaView;

    open spec fn view(&self) -> UnidademedidaView {
        UnidademedidaView {
            id: self.id as int,
            descricao: self.descricao@,
            sigla: text_view(self.sigla),
        }
    }
}

impl DeepView for Unidademedida {
    type V = UnidademedidaView;

    open spec fn deep_view(&self) -> UnidademedidaView {
        self@
    }
}

impl Clone for Unidademedida {
    fn clone(&self) -> (copy: Self)
        ensures
            copy == *self,
    {
        Unidademedida {
            id: self.id,
            descricao: self.descricao.clone(),
            sigla: clone_text(&self.sigla),
        }
    }
}

/// A product as the store keeps it.
///
/// `preco` is the price in hundredths of the currency unit, so that it is
/// never negative. `foto` is the photo's bytes as text and `formato_imagem`
/// the media type that says how to read them.
#[derive(Debug, PartialEq, Eq)]
pub struct Produto {
    pub id: i32,
    pub nome: String,
    pub preco: u64,
    pub categoria: Option<i32>,
    pub fornecedor: Option<i32>,
    pub descricao: Option<String>,
    pub foto: Option<String>,
    pub formato_imagem: Option<String>,
    pub data_criacao: Option<chrono::NaiveDateTime>,
}

/// The view of a [`Produto`].
pub struct ProdutoView {
    pub id: int,
    pub nome: Seq<char>,
    pub preco: nat,
    pub categoria: Option<int>,
    pub fornecedor: Option<int>,
    pub descricao: Option<Seq<char>>,
    pub foto: Option<Seq<char>>,
    pub formato_imagem: Option<Seq<char>>,
    pub data_criacao: Option<chrono::NaiveDateTime>,
}

impl View for Produto {
    type V = ProdutoView;

    open spec fn view(&self) -> ProdutoView {
        ProdutoView {
            id: self.id as int,
            nome: self.nome@,
            preco: self.preco as nat,
            categoria: id_view(self.categoria),
            fornecedor: id_view(self.fornecedor),
            descricao: text_view(self.descricao),
            foto: text_view(self.foto),
            formato_imagem: text_view(self.formato_imagem),
            data_criacao: self.data_criacao,
        }
    }
}

impl DeepView for Produto {
    type V = ProdutoView;

    open spec fn deep_view(&self) -> ProdutoView {
        self@
    }
}

impl Clone for Produto {
    fn clone(&self) -> (copy: Self)
        ensures
            copy == *self,
    {
        Produto {
            id: self.id,
            nome: self.nome.clone(),
            preco: self.preco,
            categoria: self.categoria,
            fornecedor: self.fornecedor,
            descricao: clone_text(&self.descricao),
            foto: clone_text(&self.foto),
            formato_imagem: clone_text(&self.formato_imagem),
            data_criacao: self.data_criacao,
        }
    }
}

/// A product that is not stored yet: all of a [`Produto`] but the
/// identifier, which the store assigns.
#[derive(Debug, PartialEq, Eq)]
pub struct ProductDraft {
    pub nome: String,
    pub preco: u64,
    pub categoria: Option<i32>,
    pub fornecedor: Option<i32>,
    pub descricao: Option<String>,
    pub foto: Option<String>,
    pub formato_imagem: Option<String>,
    pub data_criacao: Option<chrono::NaiveDateTime>,
}

/// The view of a [`ProductDraft`].
pub struct ProductDraftView {
    pub nome: Seq<char>,
    pub preco: nat,
    pub categoria: Option<int>,
    pub fornecedor: Option<int>,
    pub descricao: Option<Seq<char>>,
    pub foto: Option<Seq<char>>,
    pub formato_imagem: Option<Seq<char>>,
    pub data_criacao: Option<chrono::NaiveDateTime>,
}

impl View for ProductDraft {
    type V = ProductDraftView;

    open spec fn view(&self) -> ProductDraftView {
        ProductDraftView {
            nome: self.nome@,
            preco: self.preco as nat,
            categoria: id_view(self.categoria),
            fornecedor: id_view(self.fornecedor),
            descricao: text_view(self.descricao),
            foto: text_view(self.foto),
            formato_imagem: text_view(self.formato_imagem),
            data_criacao: self.data_criacao,
        }
    }
}

impl Clone for ProductDraft {
    fn clone(&self) -> (copy: Self)
        ensures
            copy == *self,
    {
        ProductDraft {
            nome: self.nome.clone(),
            preco: self.preco,
            categoria: self.categoria,
            fornecedor: self.fornecedor,
            descricao: clone_text(&self.descricao),
            foto: clone_text(&self.foto),
            formato_imagem: clone_text(&self.formato_imagem),
            data_criacao: self.data_criacao,
        }
    }
}

/// Whether a photo, if there is one, comes with a media type that says how
/// to read it: one that names the encoding of the photo's text.
pub open spec fn photo_rule(foto: Option<Seq<char>>, formato_imagem: Option<Seq<char>>) -> bool {
    foto is Some ==> (formato_imagem matches Some(media_type) && names_encoding(media_type))
}

impl ProductDraftView {
    /// The draft with its time of creation settled: its own where it names
    /// one, `now` where it names none.
    pub open spec fn stamped(self, now: chrono::NaiveDateTime) -> ProductDraftView {
        ProductDraftView {
            data_criacao: match self.data_criacao {
                Some(t) => Some(t),
                None => Some(now),
            },
            ..self
        }
    }
}

impl ProductDraft {
    /// Whether the draft's photo, if it has one, comes with a media type
    /// that names its encoding.
    pub fn keeps_photo_rule(&self) -> (ok: bool)
        ensures
            ok == photo_rule(self@.foto, self@.formato_imagem),
    {
        if self.foto.is_none() {
            return true;
        }
        match &self.formato_imagem {
            Some(media_type) => has_encoding_name(media_type.as_str()),
            None => false,
        }
    }

    /// Settles the draft's time of creation: `now` where the draft names
    /// none. All else stays.
    pub fn stamped_at(self, now: chrono::NaiveDateTime) -> (stamped: Self)
        ensures
            stamped@ == self@.stamped(now),
    {
        ProductDraft {
            nome: self.nome,
            preco: self.preco,
            categoria: self.categoria,
            fornecedor: self.fornecedor,
            descricao: self.descricao,
            foto: self.foto,
            formato_imagem: self.formato_imagem,
            data_criacao: match self.data_criacao {
                Some(t) => Some(t),
                None => Some(now),
            },
        }
    }
}

} // verus!
