//! The bank directory: bank names by bank code.
use vstd::prelude::*;

use crate::cadastro::{codigo_de_campo, codigo_de_texto, le_registros_csv, registros_csv, ErroCadastro};

verus! {

/// A bank of the directory.
#[derive(Debug)]
pub struct InfoBanco {
    pub id: u16,
    pub nome: String,
}

/// The bank directory, in the order of its table. Where a code occurs more
/// than once, its last entry counts.
#[derive(Debug)]
pub struct InstituicoesBancarias {
    pub bancos: Vec<InfoBanco>,
}

/// A record of the bank table: the code, then the name.
pub open spec fn registro_banco_valido(r: Seq<Seq<char>>) -> bool {
    r.len() >= 2 && codigo_de_texto(r[0]) is Some
}

impl InstituicoesBancarias {
    /// Reads the bank table from CSV text with a header row, one bank per
    /// record: code, then name.
    pub fn from_csv(dados: &[u8]) -> (r: Result<InstituicoesBancarias, ErroCadastro>)
        ensures
            registros_csv(dados@) is None ==> r == Err::<InstituicoesBancarias, ErroCadastro>(
                ErroCadastro::Csv,
            ),
            registros_csv(dados@) matches Some(recs) ==> {
                &&& r is Ok <==> forall|i: int|
                    0 <= i < recs.len() ==> registro_banco_valido(#[trigger] recs[i])
                &&& r matches Err(e) ==> e == ErroCadastro::Registro
                &&& r matches Ok(reg) ==> {
                    &&& reg.bancos@.len() == recs.len()
                    &&& forall|i: int|
                        0 <= i < recs.len() ==> {
                            &&& (#[trigger] reg.bancos@[i]).id == codigo_de_texto(recs[i][0])->Some_0
                            &&& reg.bancos@[i].nome@ == recs[i][1]
                        }
                }
            },
    {
        let registros = match le_registros_csv(dados) {
            Some(v) => v,
            None => return Err(ErroCadastro::Csv),
        };
        let ghost recs = registros_csv(dados@)->Some_0;
        let mut bancos: Vec<InfoBanco> = Vec::new();
        let mut i: usize = 0;
        while i < registros.len()
            invariant
                0 <= i <= registros@.len(),
                recs == crate::cadastro::visao_registros(registros@),
                registros_csv(dados@) == Some(recs),
                bancos@.len() == i,
                forall|k: int| 0 <= k < i ==> registro_banco_valido(#[trigger] recs[k]),
                forall|k: int|
                    0 <= k < i ==> {
                        &&& (#[trigger] bancos@[k]).id == codigo_de_texto(recs[k][0])->Some_0
                        &&& bancos@[k].nome@ == recs[k][1]
                    },
            decreases registros@.len() - i,
        {
            let campos = &registros[i];
            proof {
                assert(recs[i as int] == campos@.map_values(|s: String| s@));
            }
            if campos.len() < 2 {
                proof {
                    assert(!registro_banco_valido(recs[i as int]));
                }
                return Err(ErroCadastro::Registro);
            }
            let id = match codigo_de_campo(&campos[0]) {
                Some(id) => id,
                None => {
                    proof {
                        assert(recs[i as int][0] == campos@[0]@);
                        assert(!registro_banco_valido(recs[i as int]));
                    }
                    return Err(ErroCadastro::Registro);
                },
            };
            proof {
                assert(recs[i as int][0] == campos@[0]@);
                assert(recs[i as int][1] == campos@[1]@);
            }
            let nome = campos[1].clone();
            bancos.push(InfoBanco { id, nome });
            i = i + 1;
        }
        Ok(InstituicoesBancarias { bancos })
    }
}

impl InfoBanco {
    /// The bank of a code: its last entry in the directory, if any.
    pub fn get_by_id<'a>(registro: &'a InstituicoesBancarias, id: u16) -> (r: Option<&'a InfoBanco>)
        ensures
            r is None <==> forall|k: int|
                0 <= k < registro.bancos@.len() ==> (#[trigger] registro.bancos@[k]).id != id,
            r matches Some(b) ==> exists|k: int|
                {
                    &&& 0 <= k < registro.bancos@.len()
                    &&& #[trigger] registro.bancos@[k] == *b
                    &&& b.id == id
                    &&& forall|j: int| k < j < registro.bancos@.len() ==> (#[trigger] registro.bancos@[j]).id != id
                },
    {
        let bancos = &registro.bancos;
        let mut i: usize = bancos.len();
        while i > 0
            invariant
                0 <= i <= bancos@.len(),
                bancos == &registro.bancos,
                forall|j: int| i <= j < bancos@.len() ==> (#[trigger] bancos@[j]).id != id,
            decreases i,
        {
            if bancos[i - 1].id == id {
                return Some(&bancos[i - 1]);
            }
            i = i - 1;
        }
        None
    }
}

} // verus!
