//! The catalogue store: it keeps the categories and suppliers it was opened
//! with, takes in products one at a time, and lists what it holds.
//!
//! [`CatalogStore`] keeps its rows in memory, in the order in which they came.
//! Its view, [`CatalogView`], is the model that the contracts speak of. A
//! product's identifier is its place in that order, counted from one, so no
//! identifier is ever handed out twice. The store reads no clock: whoever
//! inserts says what time it is.
//!
//! A store that keeps its rows in a database shares the rules with it:
//! [`prepare_insert`] says what may be handed to the database, and
//! [`store_error`] which error answers each kind of failure that the
//! database's driver reports.

use vstd::prelude::*;
use crate::models::{
    photo_rule, Categoria, CategoriaView, Fornecedor, FornecedorView, ProductDraft,
    ProductDraftView, Produto, ProdutoView,
};

verus! {

/// Why the store did not do what was asked of it.
#[derive(Debug, Clone, Copy, PartialEq, Eq)]
pub enum StoreError {
    /// The data breaks a rule of the catalogue: it names a category or a
    /// supplier that does not exist, carries a photo without a media type
    /// that names the photo's encoding, or would need an identifier beyond
    /// the last one there is.
    ConstraintViolation,
    /// The store cannot be reached.
    Unavailable,
}

/// What went wrong in a database that keeps the catalogue, by the kind
/// that its driver reports. [`store_error_of`] says which of these the
/// store answers with which error.
#[derive(Debug, Clone, Copy, PartialEq, Eq)]
pub enum DbFailure {
    /// The connection string could not be read.
    Configuration,
    /// An argument of the call was invalid.
    InvalidArgument,
    /// The database refused the data: a value occurs twice that may occur
    /// once only.
    UniqueViolation,
    /// The database refused the data: it refers to a row that does not
    /// exist.
    ForeignKeyViolation,
    /// The database refused the data: a required value is missing.
    NotNullViolation,
    /// The database refused the data: a check on its values failed.
    CheckViolation,
    /// The database refused the statement for another reason.
    Database,
    /// The database could not be talked to.
    Io,
    /// No secure connection could be set up.
    Tls,
    /// What came over the connection made no sense.
    Protocol,
    /// A row was expected and none came.
    RowNotFound,
    /// The statement names a type that the database does not know.
    TypeNotFound,
    /// A row has fewer columns than were asked for.
    ColumnIndexOutOfBounds,
    /// A row lacks a column that was asked for.
    ColumnNotFound,
    /// A column's value could not be read.
    ColumnDecode,
    /// A value could not be written.
    Encode,
    /// A value could not be read.
    Decode,
    /// The driver could not map to or from the database's own driver.
    AnyDriverError,
    /// No connection became free in time.
    PoolTimedOut,
    /// The pool of connections was closed.
    PoolClosed,
    /// A worker of the driver has crashed.
    WorkerCrashed,
    /// A transaction was begun where none can begin.
    InvalidSavePointStatement,
    /// The connection was in no state to begin a transaction.
    BeginFailed,
    /// A row holds a price that is negative or no number.
    PriceOutOfRange,
    /// A kind that the driver had not when this was written.
    Other,
}

/// The error that the store answers a failure of the database with:
/// `ConstraintViolation` where the database or the driver objects to the
/// data, `Unavailable` where the database cannot be reached or talked to.
pub open spec fn store_error_of(failure: DbFailure) -> StoreError {
    match failure {
        DbFailure::InvalidArgument => StoreError::ConstraintViolation,
        DbFailure::UniqueViolation => StoreError::ConstraintViolation,
        DbFailure::ForeignKeyViolation => StoreError::ConstraintViolation,
        DbFailure::NotNullViolation => StoreError::ConstraintViolation,
        DbFailure::CheckViolation => StoreError::ConstraintViolation,
        DbFailure::Database => StoreError::ConstraintViolation,
        DbFailure::RowNotFound => StoreError::ConstraintViolation,
        DbFailure::TypeNotFound => StoreError::ConstraintViolation,
        DbFailure::ColumnIndexOutOfBounds => StoreError::ConstraintViolation,
        DbFailure::ColumnNotFound => StoreError::ConstraintViolation,
        DbFailure::ColumnDecode => StoreError::ConstraintViolation,
        DbFailure::Encode => StoreError::ConstraintViolation,
        DbFailure::Decode => StoreError::ConstraintViolation,
        DbFailure::PriceOutOfRange => StoreError::ConstraintViolation,
        DbFailure::Configuration => StoreError::Unavailable,
        DbFailure::Io => StoreError::Unavailable,
        DbFailure::Tls => StoreError::Unavailable,
        DbFailure::Protocol => StoreError::Unavailable,
        DbFailure::AnyDriverError => StoreError::Unavailable,
        DbFailure::PoolTimedOut => StoreError::Unavailable,
        DbFailure::PoolClosed => StoreError::Unavailable,
        DbFailure::WorkerCrashed => StoreError::Unavailable,
        DbFailure::InvalidSavePointStatement => StoreError::Unavailable,
        DbFailure::BeginFailed => StoreError::Unavailable,
        DbFailure::Other => StoreError::Unavailable,
    }
}

/// The error that the store answers a failure of the database with.
pub fn store_error(failure: DbFailure) -> (e: StoreError)
    ensures
        e == store_error_of(failure),
{
    match failure {
        DbFailure::InvalidArgument
        | DbFailure::UniqueViolation
        | DbFailure::ForeignKeyViolation
        | DbFailure::NotNullViolation
        | DbFailure::CheckViolation
        | DbFailure::Database
        | DbFailure::RowNotFound
        | DbFailure::TypeNotFound
        | DbFailure::ColumnIndexOutOfBounds
        | DbFailure::ColumnNotFound
        | DbFailure::ColumnDecode
        | DbFailure::Encode
        | DbFailure::Decode
        | DbFailure::PriceOutOfRange => StoreError::ConstraintViolation,
        DbFailure::Configuration
        | DbFailure::Io
        | DbFailure::Tls
        | DbFailure::Protocol
        | DbFailure::AnyDriverError
        | DbFailure::PoolTimedOut
        | DbFailure::PoolClosed
        | DbFailure::WorkerCrashed
        | DbFailure::InvalidSavePointStatement
        | DbFailure::BeginFailed
        | DbFailure::Other => StoreError::Unavailable,
    }
}

/// What a store hands on to be kept when it is given `draft` at the time
/// `now`: the draft with its time of creation settled, or
/// `ConstraintViolation` where the draft breaks the rule on photos.
pub open spec fn prepared(draft: ProductDraftView, now: chrono::NaiveDateTime) -> Result<
    ProductDraftView,
    StoreError,
> {
    if photo_rule(draft.foto, draft.formato_imagem) {
        Ok(draft.stamped(now))
    } else {
        Err(StoreError::ConstraintViolation)
    }
}

/// Prepares `draft` for a store that keeps its rows elsewhere: refuses it
/// where it breaks the rule on photos, and settles its time of creation,
/// which is `now` where the draft names none.
pub fn prepare_insert(draft: ProductDraft, now: chrono::NaiveDateTime) -> (r: Result<
    ProductDraft,
    StoreError,
>)
    ensures
        match r {
            Ok(ready) => prepared(draft@, now) == Ok::<ProductDraftView, StoreError>(ready@),
            Err(e) => prepared(draft@, now) == Err::<ProductDraftView, StoreError>(e),
        },
{
    if !draft.keeps_photo_rule() {
        return Err(StoreError::ConstraintViolation);
    }
    Ok(draft.stamped_at(now))
}

/// The catalogue as the contracts see it.
pub struct CatalogView {
    /// Whether the store can be reached.
    pub online: bool,
    pub categorias: Seq<CategoriaView>,
    pub fornecedores: Seq<FornecedorView>,
    /// The products, in the order in which they were inserted.
    pub produtos: Seq<ProdutoView>,
}

/// The row that is kept for `draft` under the identifier `id`: the draft's
/// own values, and `now` as the time of creation where the draft names none.
pub open spec fn row_of(draft: ProductDraftView, id: int, now: chrono::NaiveDateTime) -> ProdutoView {
    ProdutoView {
        id,
        nome: draft.nome,
        preco: draft.preco,
        categoria: draft.categoria,
        fornecedor: draft.fornecedor,
        descricao: draft.descricao,
        foto: draft.foto,
        formato_imagem: draft.formato_imagem,
        data_criacao: draft.stamped(now).data_criacao,
    }
}

/// Whether a category with this identifier is among `categorias`.
pub open spec fn category_listed(categorias: Seq<CategoriaView>, id: int) -> bool {
    exists|i: int| 0 <= i < categorias.len() && #[trigger] categorias[i].id == id
}

/// Whether a supplier with this identifier is among `fornecedores`.
pub open spec fn supplier_listed(fornecedores: Seq<FornecedorView>, id: int) -> bool {
    exists|i: int| 0 <= i < fornecedores.len() && #[trigger] fornecedores[i].id == id
}

/// The rules that every product keeps, stored or about to be: a category or
/// supplier that it names exists, and a photo comes with a media type that
/// names its encoding.
pub open spec fn keeps_rules(
    categorias: Seq<CategoriaView>,
    fornecedores: Seq<FornecedorView>,
    categoria: Option<int>,
    fornecedor: Option<int>,
    foto: Option<Seq<char>>,
    formato_imagem: Option<Seq<char>>,
) -> bool {
    &&& categoria matches Some(id) ==> category_listed(categorias, id)
    &&& fornecedor matches Some(id) ==> supplier_listed(fornecedores, id)
    &&& photo_rule(foto, formato_imagem)
}

/// What holds of the rows of every catalogue: the identifiers of the
/// products count up from one in the order of insertion, and every product
/// keeps the rules.
pub open spec fn rows_wf(
    categorias: Seq<CategoriaView>,
    fornecedores: Seq<FornecedorView>,
    produtos: Seq<ProdutoView>,
) -> bool {
    &&& produtos.len() <= i32::MAX
    &&& forall|i: int|
        0 <= i < produtos.len() ==> {
            &&& (#[trigger] produtos[i]).id == i + 1
            &&& keeps_rules(
                categorias,
                fornecedores,
                produtos[i].categoria,
                produtos[i].fornecedor,
                produtos[i].foto,
                produtos[i].formato_imagem,
            )
        }
}

impl CatalogView {
    /// The identifier that the next product gets.
    pub open spec fn next_id(self) -> int {
        self.produtos.len() as int + 1
    }

    /// Whether the store takes `draft` in: the draft keeps the rules and
    /// there is an identifier left for it.
    pub open spec fn admits(self, draft: ProductDraftView) -> bool {
        &&& keeps_rules(
            self.categorias,
            self.fornecedores,
            draft.categoria,
            draft.fornecedor,
            draft.foto,
            draft.formato_imagem,
        )
        &&& self.next_id() <= i32::MAX
    }

    /// What inserting `draft` at the time `now` returns.
    pub open spec fn insert_outcome(
        self,
        draft: ProductDraftView,
        now: chrono::NaiveDateTime,
    ) -> Result<ProdutoView, StoreError> {
        if !self.online {
            Err(StoreError::Unavailable)
        } else if !self.admits(draft) {
            Err(StoreError::ConstraintViolation)
        } else {
            Ok(row_of(draft, self.next_id(), now))
        }
    }

    /// The catalogue after inserting `draft` at the time `now`: one row
    /// longer where the insert succeeds, unchanged where it fails.
    pub open spec fn after_insert(
        self,
        draft: ProductDraftView,
        now: chrono::NaiveDateTime,
    ) -> CatalogView {
        match self.insert_outcome(draft, now) {
            Ok(row) => CatalogView { produtos: self.produtos.push(row), ..self },
            Err(_) => self,
        }
    }

    /// What every catalogue satisfies.
    pub open spec fn wf(self) -> bool {
        rows_wf(self.categorias, self.fornecedores, self.produtos)
    }
}

/// The view of what an insert returned.
pub open spec fn outcome_view(r: Result<Produto, StoreError>) -> Result<ProdutoView, StoreError> {
    match r {
        Ok(row) => Ok(row@),
        Err(e) => Err(e),
    }
}

/// What an insert of `draft` at the time `now` does: it returns `returned`
/// and turns the catalogue `before` into `after`.
pub open spec fn inserted(
    before: CatalogView,
    draft: ProductDraftView,
    now: chrono::NaiveDateTime,
    returned: Result<ProdutoView, StoreError>,
    after: CatalogView,
) -> bool {
    &&& returned == before.insert_outcome(draft, now)
    &&& after == before.after_insert(draft, now)
}

/// No two products of a catalogue share an identifier, and every identifier
/// is positive.
pub proof fn lemma_ids_unique(catalog: CatalogView)
    requires
        catalog.wf(),
    ensures
        forall|i: int| 0 <= i < catalog.produtos.len() ==> (#[trigger] catalog.produtos[i]).id > 0,
        forall|i: int, j: int|
            0 <= i < j < catalog.produtos.len() ==> (#[trigger] catalog.produtos[i]).id != (
            #[trigger] catalog.produtos[j]).id,
{
}

/// An insert that succeeds returns a row with a positive identifier that no
/// row had before. The row holds the draft's values. Afterwards the
/// catalogue lists the rows it listed before and then that row, which is the
/// only one with its identifier, and the catalogue still keeps its rules.
pub proof fn lemma_insert_assigns_id(
    before: CatalogView,
    draft: ProductDraftView,
    now: chrono::NaiveDateTime,
)
    requires
        before.wf(),
    ensures
        match before.insert_outcome(draft, now) {
            Ok(row) => {
                let after = before.after_insert(draft, now);
                &&& row.id > 0
                &&& forall|i: int|
                    0 <= i < before.produtos.len() ==> (#[trigger] before.produtos[i]).id != row.id
                &&& row == row_of(draft, row.id, now)
                &&& after.produtos == before.produtos.push(row)
                &&& forall|i: int|
                    0 <= i < after.produtos.len() ==> ((#[trigger] after.produtos[i]).id == row.id
                        <==> i == after.produtos.len() - 1)
                &&& after.wf()
            },
            Err(_) => before.after_insert(draft, now) == before,
        },
{
    if before.insert_outcome(draft, now) is Ok {
        let row = before.insert_outcome(draft, now)->Ok_0;
        let after = before.after_insert(draft, now);
        assert forall|i: int| 0 <= i < after.produtos.len() implies {
            &&& (#[trigger] after.produtos[i]).id == i + 1
            &&& keeps_rules(
                after.categorias,
                after.fornecedores,
                after.produtos[i].categoria,
                after.produtos[i].fornecedor,
                after.produtos[i].foto,
                after.produtos[i].formato_imagem,
            )
        } by {
            if i < before.produtos.len() {
                assert(after.produtos[i] == before.produtos[i]);
            }
        }
    }
}

/// A store that can be reached takes in every draft that it admits: the
/// insert succeeds, and the row's identifier is positive and that of no row
/// that was there before.
pub proof fn lemma_admitted_draft_is_inserted(
    before: CatalogView,
    draft: ProductDraftView,
    now: chrono::NaiveDateTime,
)
    requires
        before.wf(),
        before.online,
        before.admits(draft),
    ensures
        before.insert_outcome(draft, now) is Ok,
        before.insert_outcome(draft, now)->Ok_0.id > 0,
        forall|i: int|
            0 <= i < before.produtos.len() ==> (#[trigger] before.produtos[i]).id
                != before.insert_outcome(draft, now)->Ok_0.id,
{
}

/// Two inserts, one after the other, never return the same identifier.
pub proof fn lemma_successive_inserts_differ(
    before: CatalogView,
    first: ProductDraftView,
    first_now: chrono::NaiveDateTime,
    second: ProductDraftView,
    second_now: chrono::NaiveDateTime,
)
    requires
        before.wf(),
    ensures
        ({
            let between = before.after_insert(first, first_now);
            before.insert_outcome(first, first_now) matches Ok(a) ==> (between.insert_outcome(
                second,
                second_now,
            ) matches Ok(b) ==> a.id != b.id)
        }),
{
}

/// A draft that cannot be taken in is refused and leaves no row: one that
/// names a category or a supplier that does not exist, or that carries a
/// photo without a media type that names its encoding, fails with
/// `ConstraintViolation` on a store that can be reached.
pub proof fn lemma_rule_breakers_rejected(
    before: CatalogView,
    draft: ProductDraftView,
    now: chrono::NaiveDateTime,
)
    requires
        before.online,
        ({
            ||| draft.categoria matches Some(id) && !category_listed(before.categorias, id)
            ||| draft.fornecedor matches Some(id) && !supplier_listed(before.fornecedores, id)
            ||| !photo_rule(draft.foto, draft.formato_imagem)
        }),
    ensures
        before.insert_outcome(draft, now) == Err::<ProdutoView, StoreError>(
            StoreError::ConstraintViolation,
        ),
        before.after_insert(draft, now) == before,
{
}

/// A store that cannot be reached answers every insert with `Unavailable`
/// and keeps its rows.
pub proof fn lemma_unreachable_store_unchanged(
    before: CatalogView,
    draft: ProductDraftView,
    now: chrono::NaiveDateTime,
)
    requires
        !before.online,
    ensures
        before.insert_outcome(draft, now) == Err::<ProdutoView, StoreError>(StoreError::Unavailable),
        before.after_insert(draft, now) == before,
{
}

/// A catalogue store that keeps its rows in memory.
pub struct CatalogStore {
    online: bool,
    categorias: Vec<Categoria>,
    fornecedores: Vec<Fornecedor>,
    produtos: Vec<Produto>,
}

impl View for CatalogStore {
    type V = CatalogView;

    closed spec fn view(&self) -> CatalogView {
        CatalogView {
            online: self.online,
            categorias: self.categorias.deep_view(),
            fornecedores: self.fornecedores.deep_view(),
            produtos: self.produtos.deep_view(),
        }
    }
}

/// Whether one of `rows` has the identifier `id`.
fn category_exists(rows: &Vec<Categoria>, id: i32) -> (found: bool)
    ensures
        found == exists|i: int| 0 <= i < rows.len() && #[trigger] rows[i].id == id,
{
    let mut k: usize = 0;
    while k < rows.len()
        invariant
            k <= rows.len(),
            forall|i: int| 0 <= i < k ==> (#[trigger] rows[i]).id != id,
        decreases rows.len() - k,
    {
        if rows[k].id == id {
            return true;
        }
        k += 1;
    }
    false
}

/// Whether one of `rows` has the identifier `id`.
fn supplier_exists(rows: &Vec<Fornecedor>, id: i32) -> (found: bool)
    ensures
        found == exists|i: int| 0 <= i < rows.len() && #[trigger] rows[i].id == id,
{
    let mut k: usize = 0;
    while k < rows.len()
        invariant
            k <= rows.len(),
            forall|i: int| 0 <= i < k ==> (#[trigger] rows[i]).id != id,
        decreases rows.len() - k,
    {
        if rows[k].id == id {
            return true;
        }
        k += 1;
    }
    false
}

impl CatalogStore {
    #[verifier::type_invariant]
    spec fn inv(&self) -> bool {
        self@.wf()
    }

    /// Opens a store that holds the given categories and suppliers and no
    /// product yet. It can be reached.
    pub fn new(categorias: Vec<Categoria>, fornecedores: Vec<Fornecedor>) -> (store: Self)
        ensures
            store@ == (CatalogView {
                online: true,
                categorias: categorias.deep_view(),
                fornecedores: fornecedores.deep_view(),
                produtos: Seq::empty(),
            }),
            store@.wf(),
    {
        let store = CatalogStore { online: true, categorias, fornecedores, produtos: Vec::new() };
        assert(store.produtos.deep_view() =~= Seq::<ProdutoView>::empty());
        store
    }

    /// Says whether the store can be reached from now on. Its rows stay.
    pub fn set_online(&mut self, online: bool)
        ensures
            final(self)@ == (CatalogView { online, ..old(self)@ }),
            final(self)@.wf(),
    {
        proof {
            use_type_invariant(&*self);
        }
        self.online = online;
    }

    /// Whether the store admits `draft`.
    fn admits(&self, draft: &ProductDraft) -> (ok: bool)
        ensures
            ok == self@.admits(draft@),
    {
        let category_ok = match draft.categoria {
            Some(id) => {
                let found = category_exists(&self.categorias, id);
                proof {
                    let rows = self.categorias;
                    if found {
                        let i = choose|i: int| 0 <= i < rows.len() && #[trigger] rows[i].id == id;
                        assert(self@.categorias[i].id == id);
                    } else if category_listed(self@.categorias, id as int) {
                        let i = choose|i: int|
                            0 <= i < self@.categorias.len() && #[trigger] self@.categorias[i].id
                                == id;
                        assert(rows[i].id == id);
                    }
                }
                found
            },
            None => true,
        };
        let supplier_ok = match draft.fornecedor {
            Some(id) => {
                let found = supplier_exists(&self.fornecedores, id);
                proof {
                    let rows = self.fornecedores;
                    if found {
                        let i = choose|i: int| 0 <= i < rows.len() && #[trigger] rows[i].id == id;
                        assert(self@.fornecedores[i].id == id);
                    } else if supplier_listed(self@.fornecedores, id as int) {
                        let i = choose|i: int|
                            0 <= i < self@.fornecedores.len() && #[trigger] self@.fornecedores[i].id
                                == id;
                        assert(rows[i].id == id);
                    }
                }
                found
            },
            None => true,
        };
        category_ok && supplier_ok && draft.keeps_photo_rule() && self.produtos.len() < 0x7fff_ffff
    }

    /// Inserts `draft` as a new product and returns the row as it is kept.
    /// `now` is the current time, which the caller reads from its clock: it
    /// becomes the row's time of creation where the draft names none.
    ///
    /// Fails with `Unavailable` when the store cannot be reached, else with
    /// `ConstraintViolation` when the store does not admit the draft. A
    /// failed insert leaves the store as it was.
    pub fn insert_product(&mut self, draft: ProductDraft, now: chrono::NaiveDateTime) -> (r: Result<
        Produto,
        StoreError,
    >)
        ensures
            inserted(old(self)@, draft@, now, outcome_view(r), final(self)@),
            final(self)@.wf(),
    {
        proof {
            use_type_invariant(&*self);
        }
        if !self.online {
            return Err(StoreError::Unavailable);
        }
        if !self.admits(&draft) {
            return Err(StoreError::ConstraintViolation);
        }
        let id: i32 = (self.produtos.len() + 1) as i32;
        let ghost given = draft@;
        let draft = draft.stamped_at(now);
        let row = Produto {
            id,
            nome: draft.nome,
            preco: draft.preco,
            categoria: draft.categoria,
            fornecedor: draft.fornecedor,
            descricao: draft.descricao,
            foto: draft.foto,
            formato_imagem: draft.formato_imagem,
            data_criacao: draft.data_criacao,
        };
        let kept = row.clone();
        let mut rows: Vec<Produto> = Vec::new();
        core::mem::swap(&mut self.produtos, &mut rows);
        rows.push(kept);
        proof {
            let before = old(self)@;
            let after = rows.deep_view();
            assert(row@ == row_of(given, before.next_id(), now));
            assert(after =~= before.produtos.push(row@));
            assert forall|i: int| 0 <= i < after.len() implies {
                &&& (#[trigger] after[i]).id == i + 1
                &&& keeps_rules(
                    before.categorias,
                    before.fornecedores,
                    after[i].categoria,
                    after[i].fornecedor,
                    after[i].foto,
                    after[i].formato_imagem,
                )
            } by {
                if i < before.produtos.len() {
                    assert(after[i] == before.produtos[i]);
                }
            }
        }
        core::mem::swap(&mut self.produtos, &mut rows);
        Ok(row)
    }

    /// Lists the products, in the order in which they were inserted.
    pub fn list_products(&self) -> (r: Result<Vec<Produto>, StoreError>)
        ensures
            match r {
                Ok(rows) => self@.online && rows.deep_view() == self@.produtos,
                Err(e) => !self@.online && e == StoreError::Unavailable,
            },
            self@.wf(),
    {
        proof {
            use_type_invariant(self);
        }
        if !self.online {
            return Err(StoreError::Unavailable);
        }
        let rows = self.produtos.clone();
        Ok(rows)
    }

    /// Lists the categories, in the order in which the store was given them.
    pub fn list_categories(&self) -> (r: Result<Vec<Categoria>, StoreError>)
        ensures
            match r {
                Ok(rows) => self@.online && rows.deep_view() == self@.categorias,
                Err(e) => !self@.online && e == StoreError::Unavailable,
            },
    {
        if !self.online {
            return Err(StoreError::Unavailable);
        }
        let rows = self.categorias.clone();
        Ok(rows)
    }

    /// Lists the suppliers, in the order in which the store was given them.
    pub fn list_suppliers(&self) -> (r: Result<Vec<Fornecedor>, StoreError>)
        ensures
            match r {
                Ok(rows) => self@.online && rows.deep_view() == self@.fornecedores,
                Err(e) => !self@.online && e == StoreError::Unavailable,
            },
    {
        if !self.online {
            return Err(StoreError::Unavailable);
        }
        let rows = self.fornecedores.clone();
        Ok(rows)
    }
}

} // verus!
