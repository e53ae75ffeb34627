//! The agreement (convênio) directory: payee names by segment and
//! agreement code. Only city halls (segment Prefeituras) have a table.
use vstd::prelude::*;

use crate::arrecadacao::Segmento;
use crate::cadastro::{codigo_de_campo, codigo_de_texto, le_registros_csv, registros_csv, ErroCadastro};

verus! {

/// A payee of the agreement directory.
#[derive(Debug)]
pub struct InfoConvenio {
    pub id: u16,
    pub nome: String,
}

/// The agreement directory, each table in its own order. Where a code
/// occurs more than once in a table, its last entry counts.
#[derive(Debug)]
pub struct Concessionarias {
    pub prefeituras: Vec<InfoConvenio>,
}

/// A record of an agreement table: the name, then the code.
pub open spec fn registro_convenio_valido(r: Seq<Seq<char>>) -> bool {
    r.len() >= 2 && codigo_de_texto(r[1]) is Some
}

impl Concessionarias {
    /// Reads the city-hall table from CSV text with a header row, one payee
    /// per record: name, then code.
    pub fn from_csv(prefeituras: &[u8]) -> (r: Result<Concessionarias, ErroCadastro>)
        ensures
            registros_csv(prefeituras@) is None ==> r == Err::<Concessionarias, ErroCadastro>(
                ErroCadastro::Csv,
            ),
            registros_csv(prefeituras@) matches Some(recs) ==> {
                &&& r is Ok <==> forall|i: int|
                    0 <= i < recs.len() ==> registro_convenio_valido(#[trigger] recs[i])
                &&& r matches Err(e) ==> e == ErroCadastro::Registro
                &&& r matches Ok(reg) ==> {
                    &&& reg.prefeituras@.len() == recs.len()
                    &&& forall|i: int|
                        0 <= i < recs.len() ==> {
                            &&& (#[trigger] reg.prefeituras@[i]).id == codigo_de_texto(recs[i][1])->Some_0
                            &&& reg.prefeituras@[i].nome@ == recs[i][0]
                        }
                }
            },
    {
        let registros = match le_registros_csv(prefeituras) {
            Some(v) => v,
            None => return Err(ErroCadastro::Csv),
        };
        let ghost recs = registros_csv(prefeituras@)->Some_0;
        let mut tabela: Vec<InfoConvenio> = Vec::new();
        let mut i: usize = 0;
        while i < registros.len()
            invariant
                0 <= i <= registros@.len(),
                recs == crate::cadastro::visao_registros(registros@),
                registros_csv(prefeituras@) == Some(recs),
                tabela@.len() == i,
                forall|k: int| 0 <= k < i ==> registro_convenio_valido(#[trigger] recs[k]),
                forall|k: int|
                    0 <= k < i ==> {
                        &&& (#[trigger] tabela@[k]).id == codigo_de_texto(recs[k][1])->Some_0
                        &&& tabela@[k].nome@ == recs[k][0]
                    },
            decreases registros@.len() - i,
        {
            let campos = &registros[i];
            proof {
                assert(recs[i as int] == campos@.map_values(|s: String| s@));
            }
            if campos.len() < 2 {
                proof {
                    assert(!registro_convenio_valido(recs[i as int]));
                }
                return Err(ErroCadastro::Registro);
            }
            let id = match codigo_de_campo(&campos[1]) {
                Some(id) => id,
                None => {
                    proof {
                        assert(recs[i as int][1] == campos@[1]@);
                        assert(!registro_convenio_valido(recs[i as int]));
                    }
                    return Err(ErroCadastro::Registro);
                },
            };
            proof {
                assert(recs[i as int][0] == campos@[0]@);
                assert(recs[i as int][1] == campos@[1]@);
            }
            let nome = campos[0].clone();
            tabela.push(InfoConvenio { id, nome });
            i = i + 1;
        }
        Ok(Concessionarias { prefeituras: tabela })
    }
}

/// The directory table of segment `s`, where it has one.
pub open spec fn tabela_do_segmento(registro: Concessionarias, s: Segmento) -> Seq<InfoConvenio> {
    if s == Segmento::Prefeituras {
        registro.prefeituras@
    } else {
        Seq::empty()
    }
}

impl InfoConvenio {
    /// The payee of an agreement code in a segment: its last entry in the
    /// segment's table, if any. Segments without a table resolve nothing.
    pub fn get<'a>(registro: &'a Concessionarias, segmento: &Segmento, id: u16) -> (r: Option<
        &'a InfoConvenio,
    >)
        ensures
            ({
                let t = tabela_do_segmento(*registro, *segmento);
                &&& r is None <==> forall|k: int| 0 <= k < t.len() ==> (#[trigger] t[k]).id != id
                &&& r matches Some(c) ==> exists|k: int|
                    {
                        &&& 0 <= k < t.len()
                        &&& #[trigger] t[k] == *c
                        &&& c.id == id
                        &&& forall|j: int| k < j < t.len() ==> (#[trigger] t[j]).id != id
                    }
            }),
    {
        match segmento {
            Segmento::Prefeituras => {
                let tabela = &registro.prefeituras;
                let mut i: usize = tabela.len();
                while i > 0
                    invariant
                        0 <= i <= tabela@.len(),
                        tabela == &registro.prefeituras,
                        *segmento == Segmento::Prefeituras,
                        forall|j: int| i <= j < tabela@.len() ==> (#[trigger] tabela@[j]).id != id,
                    decreases i,
                {
                    if tabela[i - 1].id == id {
                        proof {
                            let t = tabela_do_segmento(*registro, *segmento);
                            assert(t == tabela@);
                            assert(t[i - 1] == tabela@[i - 1]);
                        }
                        return Some(&tabela[i - 1]);
                    }
                    i = i - 1;
                }
                proof {
                    assert(tabela_do_segmento(*registro, *segmento) == tabela@);
                }
                None
            },
            _ => None,
        }
    }
}

} // verus!
