//! Matching an inscription as `ord` reports it against the inscription
//! state that Kanari holds.

use vstd::prelude::*;

verus! {

/// A transaction that carries an inscription, as `ord` lists it.
#[derive(Debug, Clone)]
pub struct Transaction {
    pub id: String,
    pub txid: String,
    pub index: String,
    pub address: String,
}

/// The body of an inscription and its content type, as `ord` reports them.
#[derive(Debug, Clone)]
pub struct InscriptionBody {
    pub body: String,
    pub content_type: String,
}

/// An inscription as `ord` reports it.
#[derive(Debug)]
pub struct OrdInscriptionInfo {
    pub id: String,
    pub txid: String,
    pub index: String,
    pub address: String,
    pub body: String,
    pub content_type: String,
}

/// The inscription state Kanari holds, by the texts the check compares: the
/// owner's Bitcoin address, the content type, and the body as `0x`-prefixed hex.
#[derive(Debug, Clone)]
pub struct InscriptionStateView {
    pub owner_bitcoin_address: Option<String>,
    pub content_type: Option<String>,
    pub body: String,
}

impl OrdInscriptionInfo {
    pub fn new(tx: Transaction, inscription_body: InscriptionBody) -> (r: Self)
        ensures
            r.id@ == tx.id@,
            r.txid@ == tx.txid@,
            r.index@ == tx.index@,
            r.address@ == tx.address@,
            r.body@ == inscription_body.body@,
            r.content_type@ == inscription_body.content_type@,
    {
        OrdInscriptionInfo {
            id: tx.id,
            txid: tx.txid,
            index: tx.index,
            address: tx.address,
            body: inscription_body.body,
            content_type: inscription_body.content_type,
        }
    }
}

/// The two agree: Kanari knows an owner and it is the `ord` address, knows a
/// content type and it is the `ord` one, and its body is `0x` followed by the
/// `ord` body.
pub open spec fn inscription_matches(ord: &OrdInscriptionInfo, kanari: &InscriptionStateView) -> bool {
    &&& kanari.owner_bitcoin_address matches Some(owner) && ord.address@ == owner@
    &&& kanari.content_type matches Some(ct) && ord.content_type@ == ct@
    &&& seq!['0', 'x'] + ord.body@ == kanari.body@
}

/// Whether the inscription as `ord` reports it matches the one Kanari holds.
pub fn match_inscription_data(ord_inscription_info: OrdInscriptionInfo, kanari_inscription_info: InscriptionStateView) -> (r: bool)
    ensures
        r == inscription_matches(&ord_inscription_info, &kanari_inscription_info),
{
    let mut ord_body = String::from_str("0x");
    proof {
        reveal_strlit("0x");
        assert("0x"@ =~= seq!['0', 'x']);
    }
    ord_body.append(ord_inscription_info.body.as_str());
    let owner_ok = match &kanari_inscription_info.owner_bitcoin_address {
        Some(owner) => ord_inscription_info.address == *owner,
        None => false,
    };
    let content_type_ok = match &kanari_inscription_info.content_type {
        Some(ct) => ord_inscription_info.content_type == *ct,
        None => false,
    };
    owner_ok && content_type_ok && ord_body == kanari_inscription_info.body
}

/// The line that reports the check of one transaction: whether the
/// inscription matched, was not found on Kanari, or could not be queried.
pub open spec fn check_line_spec(
    transaction: &Transaction,
    ord: &OrdInscriptionInfo,
    kanari: Result<Option<InscriptionStateView>, String>,
) -> Seq<char> {
    let at = transaction.txid@ + " index "@ + transaction.index@;
    match kanari {
        Ok(Some(k)) => if inscription_matches(ord, &k) {
            "[STAT] check_ord_data match succ, txid: "@ + at + " "@
        } else {
            "[STAT] check_ord_data match fail, txid: "@ + at + " "@
        },
        Ok(None) => "[STAT] check_ord_data fail, txid: "@ + at + " kanari_inscription_info is none"@,
        Err(e) => "[STAT] check_ord_data txid: "@ + at + " occurs error "@ + e@,
    }
}

/// Checks the inscription of `transaction` as `ord` reports it against the
/// result of querying Kanari for it, and returns the report line.
pub fn check_ord_data(
    transaction: &Transaction,
    ord_inscription_info: OrdInscriptionInfo,
    kanari_inscription_info_result: Result<Option<InscriptionStateView>, String>,
) -> (r: String)
    ensures
        r@ == check_line_spec(transaction, &ord_inscription_info, kanari_inscription_info_result),
{
    let ghost ord = ord_inscription_info;
    let ghost kanari = kanari_inscription_info_result;
    let mut line = String::new();
    match kanari_inscription_info_result {
        Ok(Some(kanari_inscription_info)) => {
            if match_inscription_data(ord_inscription_info, kanari_inscription_info) {
                line.append("[STAT] check_ord_data match succ, txid: ");
            } else {
                line.append("[STAT] check_ord_data match fail, txid: ");
            }
            line.append(transaction.txid.as_str());
            line.append(" index ");
            line.append(transaction.index.as_str());
            line.append(" ");
        },
        Ok(None) => {
            line.append("[STAT] check_ord_data fail, txid: ");
            line.append(transaction.txid.as_str());
            line.append(" index ");
            line.append(transaction.index.as_str());
            line.append(" kanari_inscription_info is none");
        },
        Err(err) => {
            line.append("[STAT] check_ord_data txid: ");
            line.append(transaction.txid.as_str());
            line.append(" index ");
            line.append(transaction.index.as_str());
            line.append(" occurs error ");
            line.append(err.as_str());
        },
    }
    proof {
        let at = transaction.txid@ + " index "@ + transaction.index@;
        assert(line@ =~= check_line_spec(transaction, &ord, kanari));
    }
    line
}

} // verus!
