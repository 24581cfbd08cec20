use catalogo::codec::{decode, encode, CodecError};
use catalogo::export::{export_picture, PictureFile};
use catalogo::import::{draft_from_file, draft_from_parts, draft_from_photo};
use catalogo::models::{ProductDraft, Produto, Unidademedida};
use catalogo::store::CatalogStore;
use chrono::{NaiveDate, NaiveDateTime};

fn moment() -> NaiveDateTime {
    NaiveDate::from_ymd_opt(2024, 3, 1).unwrap().and_hms_opt(12, 0, 0).unwrap()
}

fn product(nome: &str, foto: Option<&str>, formato_imagem: Option<&str>) -> Produto {
    Produto {
        id: 1,
        nome: nome.to_string(),
        preco: 9900,
        categoria: None,
        fornecedor: None,
        descricao: None,
        foto: foto.map(|s| s.to_string()),
        formato_imagem: formato_imagem.map(|s| s.to_string()),
        data_criacao: None,
    }
}

#[test]
fn export_naming() {
    let bytes: Vec<u8> = vec![0x89, b'P', b'N', b'G', 0x0d, 0x0a, 0x1a, 0x0a, 0, 1, 2];
    let photo = encode(&bytes);
    let ball = product("Ball", Some(&photo), Some("image/png;base64"));
    let file = export_picture(&ball, "/tmp/out").unwrap().unwrap();
    assert_eq!(file.path, "/tmp/out/Ball.png");
    assert_eq!(file.bytes, bytes);
    assert_eq!(Ok(file.bytes), decode(&photo));
}

#[test]
fn export_path_is_dir_slash_name_dot_extension() {
    let p = product("Bola de futebol", Some("Zm9v"), Some("image/jpeg;base64"));
    assert_eq!(
        export_picture(&p, "img"),
        Ok(Some(PictureFile { path: "img/Bola de futebol.jpeg".to_string(), bytes: b"foo".to_vec() }))
    );
    let p = product("x", Some("Zg=="), Some("text/plain;base64"));
    assert_eq!(
        export_picture(&p, ""),
        Ok(Some(PictureFile { path: "/x.text/plain".to_string(), bytes: b"f".to_vec() }))
    );
    let p = product("", Some("Zg=="), Some("gif"));
    assert_eq!(
        export_picture(&p, "/a/b/"),
        Ok(Some(PictureFile { path: "/a/b//.gif".to_string(), bytes: b"f".to_vec() }))
    );
}

#[test]
fn a_product_without_photo_has_nothing_to_export() {
    assert_eq!(export_picture(&product("a", None, None), "out"), Ok(None));
    assert_eq!(export_picture(&product("a", None, Some("image/png;base64")), "out"), Ok(None));
    assert_eq!(export_picture(&product("a", Some("Zm9v"), None), "out"), Ok(None));
    assert_eq!(export_picture(&product("a", Some(""), Some("image/png;base64")), "out"), Ok(None));
    assert_eq!(export_picture(&product("a", Some(""), Some("")), "out"), Ok(None));
}

#[test]
fn an_empty_media_type_gives_an_empty_extension() {
    assert_eq!(
        export_picture(&product("a", Some("Zm9v"), Some("")), "out"),
        Ok(Some(PictureFile { path: "out/a.".to_string(), bytes: b"foo".to_vec() }))
    );
    assert_eq!(
        export_picture(&product("a", Some("Zm9v"), Some("image/;base64")), "out"),
        Ok(Some(PictureFile { path: "out/a.".to_string(), bytes: b"foo".to_vec() }))
    );
    assert_eq!(export_picture(&product("a", Some("Zm9"), Some("")), "out"), Err(CodecError));
}

#[test]
fn every_photo_with_a_media_type_comes_out_as_it_went_in() {
    let media_types = ["image/png;base64", "image/png", "", "text/plain;base64", ";base64"];
    let mut bytes: Vec<u8> = Vec::new();
    let mut n: u8 = 0;
    while n < 40 {
        bytes.push(n.wrapping_mul(37));
        for media_type in media_types {
            let row = product("p", Some(&encode(&bytes)), Some(media_type));
            let file = export_picture(&row, "dir").unwrap().unwrap();
            assert_eq!(file.bytes, bytes);
        }
        n += 1;
    }
}

#[test]
fn a_corrupt_photo_is_an_error_and_not_an_empty_file() {
    let p = product("a", Some("not-valid-base64!!"), Some("image/png;base64"));
    assert_eq!(export_picture(&p, "out"), Err(CodecError));
    let p = product("a", Some("Zm9"), Some("image/png;base64"));
    assert_eq!(export_picture(&p, "out"), Err(CodecError));
}

#[test]
fn an_absent_photo_differs_from_a_corrupt_one() {
    let absent = export_picture(&product("a", None, None), "out");
    let corrupt = export_picture(&product("a", Some("%%%%"), Some("image/png;base64")), "out");
    assert_ne!(absent, corrupt);
    assert!(absent.is_ok());
    assert!(corrupt.is_err());
}

#[test]
fn draft_from_photo_holds_the_encoded_bytes() {
    let draft = draft_from_photo("Ball".to_string(), "png", b"foobar", 9900);
    assert_eq!(
        draft,
        ProductDraft {
            nome: "Ball".to_string(),
            preco: 9900,
            categoria: None,
            fornecedor: None,
            descricao: None,
            foto: Some("Zm9vYmFy".to_string()),
            formato_imagem: Some("image/png;base64".to_string()),
            data_criacao: None,
        }
    );
}

#[test]
fn a_draft_from_a_photo_is_admitted() {
    let draft = draft_from_photo("Ball".to_string(), "png", b"foobar", 9900);
    assert!(draft.keeps_photo_rule());
    let mut store = CatalogStore::new(Vec::new(), Vec::new());
    assert_eq!(store.insert_product(draft, moment()).map(|row| row.id), Ok(1));
}

#[test]
fn draft_from_file_is_named_like_the_file() {
    let draft = draft_from_file("/home/ana/fotos/Ball.png", b"foo", None, 100).unwrap();
    assert_eq!(draft, draft_from_photo("Ball".to_string(), "png", b"foo", 100));
    let draft = draft_from_file("bola.de.praia.jpg", b"fo", None, 5).unwrap();
    assert_eq!(draft.nome, "bola.de.praia");
    assert_eq!(draft.formato_imagem, Some("image/jpg;base64".to_string()));
    assert_eq!(draft.foto, Some("Zm8=".to_string()));
    assert_eq!(draft.preco, 5);
}

#[test]
fn draft_from_file_prefers_the_supplied_name() {
    let draft =
        draft_from_file("/home/ana/fotos/IMG_0001.gif", b"f", Some("Ball".to_string()), 100).unwrap();
    assert_eq!(draft, draft_from_photo("Ball".to_string(), "gif", b"f", 100));
}

#[test]
fn draft_from_file_needs_a_file_name_with_an_extension() {
    assert_eq!(draft_from_file("/home/ana/fotos/Ball", b"foo", None, 100), None);
    assert_eq!(draft_from_file("", b"foo", None, 100), None);
    assert_eq!(draft_from_file("/", b"foo", None, 100), None);
    assert_eq!(draft_from_file(".png", b"foo", None, 100), None);
    assert_eq!(draft_from_file("/home/ana/..", b"foo", None, 100), None);
    assert_eq!(draft_from_file("Ball", b"foo", Some("Ball".to_string()), 100), None);
}

#[test]
fn a_photo_survives_import_store_and_export() {
    let bytes: Vec<u8> = (0..=255u8).rev().collect();
    let mut store = CatalogStore::new(Vec::new(), Vec::new());
    let draft = draft_from_file("/home/ana/fotos/Ball.png", &bytes, None, 9900).unwrap();
    let row = store.insert_product(draft, moment()).unwrap();
    assert_eq!(row.id, 1);
    let listed = store.list_products().unwrap();
    assert_eq!(listed.len(), 1);
    let file = export_picture(&listed[0], "/tmp/out").unwrap().unwrap();
    assert_eq!(file.path, "/tmp/out/Ball.png");
    assert_eq!(file.bytes, bytes);
}

#[test]
fn a_unit_of_measure_is_a_plain_row() {
    let unit = Unidademedida {
        id: 3,
        descricao: "Quilograma".to_string(),
        sigla: Some("kg".to_string()),
    };
    assert_eq!(unit.clone(), unit);
    let unit = Unidademedida { id: 4, descricao: "Unidade".to_string(), sigla: None };
    assert_eq!(unit.clone(), unit);
}

fn text(s: &str) -> Option<String> {
    Some(s.to_string())
}

#[test]
fn draft_from_parts_needs_all_parts() {
    assert_eq!(draft_from_parts(None, None, None, b"foo", None, 100), None);
    assert_eq!(draft_from_parts(text("Ball"), text("Ball"), None, b"foo", None, 100), None);
    assert_eq!(draft_from_parts(text(".png"), text(".png"), None, b"foo", None, 100), None);
    assert_eq!(draft_from_parts(text("a.png"), None, text("png"), b"foo", None, 100), None);
    assert_eq!(draft_from_parts(None, text("a"), text("png"), b"foo", text("Ball"), 100), None);
    assert_eq!(draft_from_parts(text("Ball"), text("Ball"), None, b"foo", text("Ball"), 100), None);
}

#[test]
fn draft_from_parts_needs_parts_that_make_up_the_name() {
    assert_eq!(draft_from_parts(text("a.png"), text("b"), text("png"), b"foo", None, 100), None);
    assert_eq!(draft_from_parts(text("a.png"), text("a"), text("gif"), b"foo", None, 100), None);
    assert_eq!(draft_from_parts(text("a.png"), text("a."), text("png"), b"foo", None, 100), None);
    assert_eq!(draft_from_parts(text("apng"), text("a"), text("png"), b"foo", None, 100), None);
    assert_eq!(draft_from_parts(text("a.png "), text("a"), text("png"), b"foo", None, 100), None);
    assert_eq!(
        draft_from_parts(text("a.b.png"), text("a.b"), text("png"), b"foo", None, 100),
        Some(draft_from_photo("a.b".to_string(), "png", b"foo", 100))
    );
}

#[test]
fn draft_from_parts_names_the_product_like_the_file_unless_told_otherwise() {
    assert_eq!(
        draft_from_parts(text("IMG_0001.png"), text("IMG_0001"), text("png"), b"foo", None, 100),
        Some(draft_from_photo("IMG_0001".to_string(), "png", b"foo", 100))
    );
    assert_eq!(
        draft_from_parts(
            text("IMG_0001.png"),
            text("IMG_0001"),
            text("png"),
            b"foo",
            text("Ball"),
            100
        ),
        Some(draft_from_photo("Ball".to_string(), "png", b"foo", 100))
    );
    assert_eq!(
        draft_from_parts(text("."), text(""), text(""), b"", text(""), 0),
        Some(draft_from_photo(String::new(), "", b"", 0))
    );
}

#[test]
fn draft_from_file_takes_name_and_extension_from_the_path() {
    let paths = [
        ("/home/ana/fotos/Ball.png", "Ball", "png"),
        ("Ball.png", "Ball", "png"),
        ("./fotos/bola.de.praia.jpg", "bola.de.praia", "jpg"),
        ("/tmp/x/.hidden.gif", ".hidden", "gif"),
        ("fotos/Ball.png/", "Ball", "png"),
        ("/tmp/foto.", "foto", ""),
        ("/tmp/p\u{e3}o.png", "p\u{e3}o", "png"),
    ];
    for (path, stem, extension) in paths {
        let draft = draft_from_file(path, b"foo", None, 7).unwrap();
        assert_eq!(draft, draft_from_photo(stem.to_string(), extension, b"foo", 7));
        assert!(path.contains(&format!("{}.{}", stem, extension)));
    }
}

#[test]
fn draft_from_photo_of_an_empty_file_has_an_empty_photo() {
    let draft = draft_from_photo("Ball".to_string(), "png", b"", 1);
    assert_eq!(draft.foto, Some(String::new()));
    assert_eq!(draft.formato_imagem, Some("image/png;base64".to_string()));
    let row = Produto {
        id: 1,
        nome: draft.nome,
        preco: draft.preco,
        categoria: None,
        fornecedor: None,
        descricao: None,
        foto: draft.foto,
        formato_imagem: draft.formato_imagem,
        data_criacao: None,
    };
    assert_eq!(export_picture(&row, "out"), Ok(None));
}
