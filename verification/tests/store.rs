use catalogo::models::{Categoria, Fornecedor, ProductDraft, Produto};
use catalogo::store::{prepare_insert, store_error, CatalogStore, DbFailure, StoreError};
use chrono::{NaiveDate, NaiveDateTime};

fn moment(day: u32, hour: u32) -> NaiveDateTime {
    NaiveDate::from_ymd_opt(2024, 3, day).unwrap().and_hms_opt(hour, 30, 15).unwrap()
}

fn categories() -> Vec<Categoria> {
    vec![
        Categoria { id: 1, nome: "Brinquedos".to_string() },
        Categoria { id: 2, nome: "Esportes".to_string() },
    ]
}

fn suppliers() -> Vec<Fornecedor> {
    vec![
        Fornecedor {
            id: 7,
            cnpj: "00.000.000/0001-91".to_string(),
            nome: "Casa da Bola".to_string(),
            email: Some("vendas@casadabola.example".to_string()),
        },
        Fornecedor {
            id: 9,
            cnpj: "11.111.111/0001-22".to_string(),
            nome: "Redes e Traves".to_string(),
            email: None,
        },
    ]
}

fn open_store() -> CatalogStore {
    CatalogStore::new(categories(), suppliers())
}

fn plain_draft(nome: &str) -> ProductDraft {
    ProductDraft {
        nome: nome.to_string(),
        preco: 9900,
        categoria: None,
        fornecedor: None,
        descricao: None,
        foto: None,
        formato_imagem: None,
        data_criacao: None,
    }
}

fn full_draft() -> ProductDraft {
    ProductDraft {
        nome: "Ball".to_string(),
        preco: 12345,
        categoria: Some(2),
        fornecedor: Some(7),
        descricao: Some("A ball".to_string()),
        foto: Some("Zm9v".to_string()),
        formato_imagem: Some("image/png;base64".to_string()),
        data_criacao: Some(moment(5, 8)),
    }
}

#[test]
fn a_new_store_lists_what_it_was_given_and_no_product() {
    let store = open_store();
    assert_eq!(store.list_categories(), Ok(categories()));
    assert_eq!(store.list_suppliers(), Ok(suppliers()));
    assert_eq!(store.list_products(), Ok(Vec::new()));
}

#[test]
fn insert_assigns_id() {
    let mut store = open_store();
    let row = store.insert_product(full_draft(), moment(6, 9)).unwrap();
    assert!(row.id > 0);
    assert_eq!(
        row,
        Produto {
            id: 1,
            nome: "Ball".to_string(),
            preco: 12345,
            categoria: Some(2),
            fornecedor: Some(7),
            descricao: Some("A ball".to_string()),
            foto: Some("Zm9v".to_string()),
            formato_imagem: Some("image/png;base64".to_string()),
            data_criacao: Some(moment(5, 8)),
        }
    );
    let listed = store.list_products().unwrap();
    assert_eq!(listed, vec![row]);
}

#[test]
fn ids_count_up_and_are_never_reused() {
    let mut store = open_store();
    let a = store.insert_product(plain_draft("a"), moment(1, 1)).unwrap();
    let b = store.insert_product(plain_draft("b"), moment(1, 2)).unwrap();
    let refused = store.insert_product(
        ProductDraft { categoria: Some(999999), ..plain_draft("x") },
        moment(1, 3),
    );
    assert_eq!(refused, Err(StoreError::ConstraintViolation));
    let c = store.insert_product(plain_draft("c"), moment(1, 4)).unwrap();
    assert_eq!((a.id, b.id, c.id), (1, 2, 3));
    let listed = store.list_products().unwrap();
    assert_eq!(listed, vec![a, b, c]);
}

#[test]
fn every_listed_id_is_positive_and_distinct() {
    let mut store = open_store();
    let names = ["a", "b", "c", "d", "e", "f", "g"];
    for nome in names {
        store.insert_product(plain_draft(nome), moment(2, 2)).unwrap();
    }
    let listed = store.list_products().unwrap();
    assert_eq!(listed.len(), names.len());
    for (i, row) in listed.iter().enumerate() {
        assert!(row.id > 0);
        assert_eq!(row.nome, names[i]);
        for other in &listed[i + 1..] {
            assert_ne!(row.id, other.id);
        }
    }
}

#[test]
fn products_are_listed_in_insertion_order() {
    let mut store = open_store();
    store.insert_product(plain_draft("zebra"), moment(1, 1)).unwrap();
    store.insert_product(plain_draft("apple"), moment(1, 1)).unwrap();
    store.insert_product(plain_draft("mango"), moment(1, 1)).unwrap();
    let names: Vec<String> = store.list_products().unwrap().into_iter().map(|p| p.nome).collect();
    assert_eq!(names, vec!["zebra", "apple", "mango"]);
}

#[test]
fn a_missing_creation_time_becomes_the_time_of_the_insert() {
    let mut store = open_store();
    let row = store.insert_product(plain_draft("a"), moment(6, 9)).unwrap();
    assert_eq!(row.data_criacao, Some(moment(6, 9)));
    assert_eq!(store.list_products().unwrap()[0].data_criacao, Some(moment(6, 9)));
}

#[test]
fn a_supplied_creation_time_is_kept() {
    let mut store = open_store();
    let draft = ProductDraft { data_criacao: Some(moment(5, 8)), ..plain_draft("a") };
    let row = store.insert_product(draft, moment(6, 9)).unwrap();
    assert_eq!(row.data_criacao, Some(moment(5, 8)));
}

#[test]
fn constraint_enforcement() {
    let mut store = open_store();
    store.insert_product(plain_draft("kept"), moment(1, 1)).unwrap();
    let before = store.list_products().unwrap();
    let draft = ProductDraft { categoria: Some(999999), ..full_draft() };
    assert_eq!(store.insert_product(draft, moment(1, 2)), Err(StoreError::ConstraintViolation));
    assert_eq!(store.list_products().unwrap(), before);
    let row = store.insert_product(plain_draft("next"), moment(1, 3)).unwrap();
    assert_eq!(row.id, 2);
}

#[test]
fn an_unknown_supplier_is_refused() {
    let mut store = open_store();
    let draft = ProductDraft { fornecedor: Some(8), ..full_draft() };
    assert_eq!(store.insert_product(draft, moment(1, 2)), Err(StoreError::ConstraintViolation));
    assert_eq!(store.list_products(), Ok(Vec::new()));
}

#[test]
fn a_supplier_id_is_not_a_category_id() {
    let mut store = open_store();
    let draft = ProductDraft { categoria: Some(7), ..plain_draft("a") };
    assert_eq!(store.insert_product(draft, moment(1, 2)), Err(StoreError::ConstraintViolation));
    let draft = ProductDraft { fornecedor: Some(1), ..plain_draft("a") };
    assert_eq!(store.insert_product(draft, moment(1, 2)), Err(StoreError::ConstraintViolation));
    assert_eq!(store.list_products(), Ok(Vec::new()));
}

#[test]
fn a_photo_without_media_type_is_refused() {
    let mut store = open_store();
    let draft = ProductDraft { formato_imagem: None, ..full_draft() };
    assert_eq!(store.insert_product(draft, moment(1, 2)), Err(StoreError::ConstraintViolation));
    assert_eq!(store.list_products(), Ok(Vec::new()));
}

#[test]
fn a_photo_with_a_media_type_that_names_no_encoding_is_refused() {
    let mut store = open_store();
    let draft = ProductDraft { formato_imagem: Some("image/png".to_string()), ..full_draft() };
    assert_eq!(store.insert_product(draft, moment(1, 2)), Err(StoreError::ConstraintViolation));
    let draft = ProductDraft { formato_imagem: Some(String::new()), ..full_draft() };
    assert_eq!(store.insert_product(draft, moment(1, 2)), Err(StoreError::ConstraintViolation));
    let draft = ProductDraft { formato_imagem: Some("image/png;base64 ".to_string()), ..full_draft() };
    assert_eq!(store.insert_product(draft, moment(1, 2)), Err(StoreError::ConstraintViolation));
    assert_eq!(store.list_products(), Ok(Vec::new()));
    let draft = ProductDraft { formato_imagem: Some(";base64".to_string()), ..full_draft() };
    assert_eq!(store.insert_product(draft, moment(1, 2)).map(|row| row.id), Ok(1));
}

#[test]
fn a_media_type_without_photo_is_accepted() {
    let mut store = open_store();
    let draft = ProductDraft { foto: None, ..full_draft() };
    let row = store.insert_product(draft, moment(1, 2)).unwrap();
    assert_eq!(row.foto, None);
    assert_eq!(row.formato_imagem, Some("image/png;base64".to_string()));
}

#[test]
fn known_references_are_accepted() {
    let mut store = open_store();
    let draft = ProductDraft { categoria: Some(1), fornecedor: Some(9), ..plain_draft("net") };
    let row = store.insert_product(draft, moment(1, 2)).unwrap();
    assert_eq!(row.categoria, Some(1));
    assert_eq!(row.fornecedor, Some(9));
}

#[test]
fn a_store_without_categories_refuses_every_category() {
    let mut store = CatalogStore::new(Vec::new(), Vec::new());
    let draft = ProductDraft { categoria: Some(1), ..plain_draft("a") };
    assert_eq!(store.insert_product(draft, moment(1, 2)), Err(StoreError::ConstraintViolation));
    let row = store.insert_product(plain_draft("a"), moment(1, 2)).unwrap();
    assert_eq!(row.id, 1);
}

#[test]
fn an_unreachable_store_answers_unavailable() {
    let mut store = open_store();
    let kept = store.insert_product(plain_draft("kept"), moment(1, 1)).unwrap();
    store.set_online(false);
    assert_eq!(store.insert_product(full_draft(), moment(1, 2)), Err(StoreError::Unavailable));
    assert_eq!(store.list_products(), Err(StoreError::Unavailable));
    assert_eq!(store.list_categories(), Err(StoreError::Unavailable));
    assert_eq!(store.list_suppliers(), Err(StoreError::Unavailable));
    store.set_online(true);
    assert_eq!(store.list_products(), Ok(vec![kept]));
    assert_eq!(store.list_categories(), Ok(categories()));
    assert_eq!(store.list_suppliers(), Ok(suppliers()));
    let next = store.insert_product(full_draft(), moment(1, 3)).unwrap();
    assert_eq!(next.id, 2);
}

#[test]
fn unavailable_comes_before_constraint_violation() {
    let mut store = open_store();
    store.set_online(false);
    let draft = ProductDraft { categoria: Some(999999), ..plain_draft("x") };
    assert_eq!(store.insert_product(draft, moment(1, 2)), Err(StoreError::Unavailable));
}

#[test]
fn the_returned_row_is_a_copy() {
    let mut store = open_store();
    let mut row = store.insert_product(full_draft(), moment(1, 1)).unwrap();
    row.nome = "changed".to_string();
    assert_eq!(store.list_products().unwrap()[0].nome, "Ball");
}

#[test]
fn rows_can_be_cloned() {
    let mut store = open_store();
    let row = store.insert_product(full_draft(), moment(1, 1)).unwrap();
    assert_eq!(row.clone(), row);
    assert_eq!(full_draft().clone(), full_draft());
    assert_eq!(categories()[0].clone(), categories()[0]);
    assert_eq!(suppliers()[0].clone(), suppliers()[0]);
    assert_eq!(suppliers()[1].clone(), suppliers()[1]);
}

#[test]
fn a_draft_keeps_the_photo_rule_unless_its_photo_lacks_a_media_type() {
    assert!(plain_draft("a").keeps_photo_rule());
    assert!(full_draft().keeps_photo_rule());
    assert!(ProductDraft { foto: None, ..full_draft() }.keeps_photo_rule());
    assert!(ProductDraft { foto: None, formato_imagem: Some("x".to_string()), ..full_draft() }
        .keeps_photo_rule());
    assert!(!ProductDraft { formato_imagem: None, ..full_draft() }.keeps_photo_rule());
    assert!(!ProductDraft { formato_imagem: Some("image/png".to_string()), ..full_draft() }
        .keeps_photo_rule());
    assert!(ProductDraft { formato_imagem: Some("text/plain;base64".to_string()), ..full_draft() }
        .keeps_photo_rule());
}

#[test]
fn stamping_settles_a_missing_creation_time_only() {
    let stamped = plain_draft("a").stamped_at(moment(6, 9));
    assert_eq!(stamped, ProductDraft { data_criacao: Some(moment(6, 9)), ..plain_draft("a") });
    let stamped = full_draft().stamped_at(moment(6, 9));
    assert_eq!(stamped, full_draft());
}

#[test]
fn two_inserts_never_return_the_same_id() {
    let mut store = open_store();
    let first = store.insert_product(full_draft(), moment(1, 1)).unwrap();
    let second = store.insert_product(full_draft(), moment(1, 1)).unwrap();
    assert_ne!(first.id, second.id);
    assert_eq!(ProductDraft { data_criacao: None, ..full_draft() }.nome, first.nome);
    assert_eq!(Produto { id: first.id, ..second }, first);
}

#[test]
fn every_admitted_draft_is_inserted_with_a_positive_id() {
    let mut store = open_store();
    let drafts = vec![
        plain_draft("a"),
        full_draft(),
        ProductDraft { categoria: Some(1), ..plain_draft("b") },
        ProductDraft { fornecedor: Some(9), ..plain_draft("c") },
        ProductDraft { foto: None, formato_imagem: Some("x".to_string()), ..plain_draft("d") },
    ];
    let mut seen: Vec<i32> = Vec::new();
    for draft in drafts {
        let row = store.insert_product(draft, moment(2, 2)).unwrap();
        assert!(row.id > 0);
        assert!(!seen.contains(&row.id));
        seen.push(row.id);
    }
    assert_eq!(seen, vec![1, 2, 3, 4, 5]);
}

#[test]
fn failures_that_concern_the_data_are_constraint_violations() {
    let failures = [
        DbFailure::InvalidArgument,
        DbFailure::UniqueViolation,
        DbFailure::ForeignKeyViolation,
        DbFailure::NotNullViolation,
        DbFailure::CheckViolation,
        DbFailure::Database,
        DbFailure::RowNotFound,
        DbFailure::TypeNotFound,
        DbFailure::ColumnIndexOutOfBounds,
        DbFailure::ColumnNotFound,
        DbFailure::ColumnDecode,
        DbFailure::Encode,
        DbFailure::Decode,
        DbFailure::PriceOutOfRange,
    ];
    for failure in failures {
        assert_eq!(store_error(failure), StoreError::ConstraintViolation, "{:?}", failure);
    }
}

#[test]
fn failures_of_the_connection_make_the_store_unavailable() {
    let failures = [
        DbFailure::Configuration,
        DbFailure::Io,
        DbFailure::Tls,
        DbFailure::Protocol,
        DbFailure::AnyDriverError,
        DbFailure::PoolTimedOut,
        DbFailure::PoolClosed,
        DbFailure::WorkerCrashed,
        DbFailure::InvalidSavePointStatement,
        DbFailure::BeginFailed,
        DbFailure::Other,
    ];
    for failure in failures {
        assert_eq!(store_error(failure), StoreError::Unavailable, "{:?}", failure);
    }
}

#[test]
fn prepare_insert_settles_the_creation_time() {
    assert_eq!(
        prepare_insert(plain_draft("a"), moment(6, 9)),
        Ok(ProductDraft { data_criacao: Some(moment(6, 9)), ..plain_draft("a") })
    );
    assert_eq!(prepare_insert(full_draft(), moment(6, 9)), Ok(full_draft()));
}

#[test]
fn prepare_insert_refuses_a_photo_without_a_media_type_that_names_the_encoding() {
    let draft = ProductDraft { formato_imagem: None, ..full_draft() };
    assert_eq!(prepare_insert(draft, moment(6, 9)), Err(StoreError::ConstraintViolation));
    let draft = ProductDraft { formato_imagem: Some("image/png".to_string()), ..full_draft() };
    assert_eq!(prepare_insert(draft, moment(6, 9)), Err(StoreError::ConstraintViolation));
}
