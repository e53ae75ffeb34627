use boleto_utils::arrecadacao::Segmento;
use boleto_utils::cadastro::{codigo_de_campo, ErroCadastro};
use boleto_utils::concessionarias::{Concessionarias, InfoConvenio};
use boleto_utils::instituicoes_bancarias::{InfoBanco, InstituicoesBancarias};

const BANCOS: &str = "id,nome\n1,Banco do Brasil S.A.\n237,Banco Bradesco S.A.\n341,Ita√∫ Unibanco S.A.\n655,Banco Votorantim S.A.\n";

const PREFEITURAS: &str = "nome,id\nPrefeitura de São Paulo,0\nPrefeitura de Curitiba,1319\nPrefeitura do Rio de Janeiro,3659\n";

#[test]
fn should_load_and_get_info_bancos() {
    let registro = InstituicoesBancarias::from_csv(BANCOS.as_bytes()).unwrap();
    let info = InfoBanco::get_by_id(&registro, 0);
    assert!(matches!(info, None));

    println!("HashMap.len() == {}", registro.bancos.len());

    let info = InfoBanco::get_by_id(&registro, 1).expect("Find by ID");
    assert_eq!(info.id, 1);
    assert!(info.nome.contains("Banco do Brasil"));

    let info = InfoBanco::get_by_id(&registro, 341).expect("Find by ID");
    assert_eq!(info.id, 341);
    assert!(info.nome.contains("Ita√∫"));

    let info = InfoBanco::get_by_id(&registro, 655).expect("Find by ID");
    assert_eq!(info.id, 655);
    assert!(info.nome.contains("Votorantim"));
}

#[test]
fn should_load_and_get_prefeituras() {
    const SEG: &Segmento = &Segmento::Prefeituras;
    let registro = Concessionarias::from_csv(PREFEITURAS.as_bytes()).unwrap();

    let info = InfoConvenio::get(&registro, SEG, 9999);
    assert!(matches!(info, None));

    println!("HashMap.len() == {}", registro.prefeituras.len());

    let info = InfoConvenio::get(&registro, SEG, 0).expect("Find by ID");
    assert_eq!(info.id, 0);
    assert!(info.nome.contains("São Paulo"));

    let info = InfoConvenio::get(&registro, SEG, 3659).expect("Find by ID");
    assert_eq!(info.id, 3659);
    assert!(info.nome.contains("Rio de Janeiro"));

    let info = InfoConvenio::get(&registro, SEG, 1319).expect("Find by ID");
    assert_eq!(info.id, 1319);
    assert!(info.nome.contains("Curitiba"));
}

#[test]
fn directory_edge_cases() {
    // The last entry of a repeated code counts.
    let registro = InstituicoesBancarias::from_csv(b"id,nome\n1,Antigo\n1,Novo\n").unwrap();
    assert_eq!(InfoBanco::get_by_id(&registro, 1).unwrap().nome, "Novo");
    // Only the header: an empty directory.
    let vazio = InstituicoesBancarias::from_csv(b"id,nome\n").unwrap();
    assert!(vazio.bancos.is_empty());
    // A code that is not a number, and a code out of range.
    assert!(matches!(InstituicoesBancarias::from_csv(b"id,nome\nx,Banco\n"), Err(ErroCadastro::Registro)));
    assert!(matches!(InstituicoesBancarias::from_csv(b"id,nome\n70000,Banco\n"), Err(ErroCadastro::Registro)));
    // A row with fewer fields than the header.
    assert!(matches!(InstituicoesBancarias::from_csv(b"id,nome\n1\n"), Err(ErroCadastro::Csv)));
    // Segments without a table resolve nothing.
    let conv = Concessionarias::from_csv(PREFEITURAS.as_bytes()).unwrap();
    assert!(InfoConvenio::get(&conv, &Segmento::Saneamento, 0).is_none());
}

#[test]
fn codes_read_as_u16() {
    assert_eq!(codigo_de_campo(&"341".to_string()), Some(341));
    assert_eq!(codigo_de_campo(&"+7".to_string()), Some(7));
    assert_eq!(codigo_de_campo(&"65535".to_string()), Some(65535));
    assert_eq!(codigo_de_campo(&"65536".to_string()), None);
    assert_eq!(codigo_de_campo(&"".to_string()), None);
    assert_eq!(codigo_de_campo(&"+".to_string()), None);
    assert_eq!(codigo_de_campo(&" 1".to_string()), None);
    assert_eq!(codigo_de_campo(&"0012".to_string()), Some(12));
}
