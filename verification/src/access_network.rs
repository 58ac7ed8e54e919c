//! The serving cell as REGISTER requests may report it.
//!
//! A missing or ambiguous report leads to an error, and the header is left out:
//! no cell identity is ever made up.

use vstd::prelude::*;
use vstd::string::*;

use crate::text;
use crate::text::{after_prefix, all_digits, is_control, opt, trimmed};

verus! {

/// Where ModemManager keeps its modems.
pub const MODEM_PATH_PREFIX: &'static str = "/org/freedesktop/ModemManager1/Modem/";

pub open spec fn has_control(s: Seq<char>) -> bool {
    exists|i: int| 0 <= i < s.len() && is_control(#[trigger] s[i])
}

/// The object path of a modem that is given by its path or its number.
pub open spec fn modem_path_of(value: Seq<char>) -> Option<Seq<char>> {
    let path = trimmed(value);
    if path.len() == 0 || has_control(path) {
        None
    } else {
        match after_prefix(path, MODEM_PATH_PREFIX@) {
            Some(index) => if index.len() > 0 && all_digits(index) {
                Some(path)
            } else {
                None
            },
            None => if all_digits(path) {
                Some(MODEM_PATH_PREFIX@ + path)
            } else {
                None
            },
        }
    }
}

fn contains_control(s: &str) -> (r: bool)
    ensures
        r == has_control(s@),
{
    let c = text::chars(s);
    let mut i: usize = 0;
    while i < c.len()
        invariant
            i <= c@.len(),
            c@ == s@,
            forall|j: int| 0 <= j < i ==> !is_control(#[trigger] c@[j]),
        decreases c@.len() - i,
    {
        if c[i] <= '\u{1f}' || ('\u{7f}' <= c[i] && c[i] <= '\u{9f}') {
            assert(is_control(s@[i as int]));
            return true;
        }
        i += 1;
    }
    false
}

/// The object path of a modem that is given by its path or its number.
pub fn normalize_modem_path(value: &str) -> (r: Option<String>)
    ensures
        opt(r) == modem_path_of(value@),
{
    let path = text::trim(value);
    if path.as_str().is_empty() || contains_control(path.as_str()) {
        return None;
    }
    match text::strip_prefix(path.as_str(), MODEM_PATH_PREFIX) {
        Some(index) => if !index.as_str().is_empty() && text::only_digits(index.as_str()) {
            Some(path)
        } else {
            None
        },
        None => if text::only_digits(path.as_str()) {
            let mut full = MODEM_PATH_PREFIX.to_string();
            full.append(path.as_str());
            Some(full)
        } else {
            None
        },
    }
}

/// Normalizing a path again changes nothing.
pub proof fn modem_path_is_canonical(value: Seq<char>)
    requires
        modem_path_of(value) is Some,
    ensures
        modem_path_of(modem_path_of(value)->0) == modem_path_of(value),
{
    let path = trimmed(value);
    let full = modem_path_of(value)->0;
    let prefix = MODEM_PATH_PREFIX@;
    text::lemma_trimmed_again(value);
    reveal_strlit("/org/freedesktop/ModemManager1/Modem/");
    if after_prefix(path, prefix) is None {
        assert(full == prefix + path);
        assert(full.take(prefix.len() as int) =~= prefix);
        assert(full.skip(prefix.len() as int) =~= path);
        assert(full[0] == '/');
        assert(full.last() == path.last());
        assert(text::is_digit(path[path.len() - 1]));
        assert(text::trim_start(full) == full);
        assert(text::trim_end(full) == full);
        assert(trimmed(full) == full);
        assert(!has_control(full)) by {
            assert forall|i: int| 0 <= i < full.len() implies !is_control(#[trigger] full[i]) by {
                if i >= prefix.len() {
                    assert(full[i] == path[i - prefix.len()]);
                    assert(text::is_digit(path[i - prefix.len()]));
                }
            }
        }
    }
}

/// What the modem reports of its network.
#[derive(Debug, PartialEq, Eq)]
pub struct NetworkInfo {
    pub registration_status: String,
    pub mcc: Option<String>,
    pub mnc: Option<String>,
}

/// One cell of the modem's list.
#[derive(Debug, PartialEq, Eq)]
pub struct CellInfo {
    pub is_serving: bool,
    pub tech: String,
    pub cell_id: u64,
    pub band: String,
}

/// What the modem reports of its cells.
#[derive(Debug, PartialEq, Eq)]
pub struct CellsData {
    pub serving_tech: String,
    pub serving_cell_id: u64,
    pub serving_tac: u64,
    pub cells: Vec<CellInfo>,
}

/// The serving cell as it is handed on.
#[derive(Debug, PartialEq, Eq)]
pub struct ServingAccess {
    pub mcc: String,
    pub mnc: String,
    pub technology: String,
    pub cell_id: u64,
    pub tac: u64,
    pub band: Option<String>,
}

pub struct ServingView {
    pub mcc: Seq<char>,
    pub mnc: Seq<char>,
    pub technology: Seq<char>,
    pub cell_id: u64,
    pub tac: u64,
    pub band: Option<Seq<char>>,
}

impl View for ServingAccess {
    type V = ServingView;

    open spec fn view(&self) -> ServingView {
        ServingView {
            mcc: self.mcc@,
            mnc: self.mnc@,
            technology: self.technology@,
            cell_id: self.cell_id,
            tac: self.tac,
            band: opt(self.band),
        }
    }
}

/// The first cell of the list that serves.
pub open spec fn serving_cell(cells: Seq<CellInfo>) -> Option<CellInfo>
    decreases cells.len(),
{
    if cells.len() == 0 {
        None
    } else if cells[0].is_serving {
        Some(cells[0])
    } else {
        serving_cell(cells.drop_first())
    }
}

pub open spec fn text_or_empty(value: Option<String>) -> Seq<char> {
    match value {
        Some(text) => text@,
        None => Seq::empty(),
    }
}

/// The modem is registered with a network.
pub open spec fn network_registered(status: Seq<char>) -> bool {
    status == "registered"@ || status == "roaming"@ || status == "attached"@
}

/// The serving cell: what the summary leaves open is taken from the list.
pub open spec fn serving_access(network: NetworkInfo, cells: CellsData) -> ServingView {
    let serving = serving_cell(cells.cells@);
    ServingView {
        mcc: text_or_empty(network.mcc),
        mnc: text_or_empty(network.mnc),
        technology: if trimmed(cells.serving_tech@).len() > 0 {
            cells.serving_tech@
        } else {
            match serving {
                Some(cell) => cell.tech@,
                None => Seq::empty(),
            }
        },
        cell_id: if cells.serving_cell_id != 0 {
            cells.serving_cell_id
        } else {
            match serving {
                Some(cell) => cell.cell_id,
                None => 0,
            }
        },
        tac: cells.serving_tac,
        band: match serving {
            Some(cell) => if trimmed(cell.band@).len() > 0 {
                Some(trimmed(cell.band@))
            } else {
                None
            },
            None => None,
        },
    }
}

fn find_serving(cells: &Vec<CellInfo>) -> (r: Option<&CellInfo>)
    ensures
        match r {
            Some(cell) => serving_cell(cells@) == Some(*cell),
            None => serving_cell(cells@) is None,
        },
{
    let mut i: usize = 0;
    proof {
        assert(cells@.skip(0) =~= cells@);
    }
    while i < cells.len()
        invariant
            i <= cells@.len(),
            serving_cell(cells@) == serving_cell(cells@.skip(i as int)),
        decreases cells@.len() - i,
    {
        proof {
            assert(cells@.skip(i as int).drop_first() =~= cells@.skip(i as int + 1));
            assert(cells@.skip(i as int)[0] == cells@[i as int]);
        }
        if cells[i].is_serving {
            return Some(&cells[i]);
        }
        i += 1;
    }
    None
}

/// The serving cell as it is handed on. A modem that is not registered has none.
pub fn serving_access_snapshot(network: &NetworkInfo, cells: &CellsData) -> (r: Result<
    ServingAccess,
    String,
>)
    ensures
        match r {
            Ok(access) => network_registered(network.registration_status@) && access@
                == serving_access(*network, *cells),
            Err(reason) => !network_registered(network.registration_status@) && reason@
                == "access_network_not_registered:"@ + network.registration_status@,
        },
{
    let status = network.registration_status.as_str();
    if !text::same(status, "registered") && !text::same(status, "roaming") && !text::same(
        status,
        "attached",
    ) {
        let mut reason = "access_network_not_registered:".to_string();
        reason.append(status);
        return Err(reason);
    }
    let serving = find_serving(&cells.cells);
    let technology = if text::trim(cells.serving_tech.as_str()).as_str().is_empty() {
        match serving {
            Some(cell) => cell.tech.clone(),
            None => String::new(),
        }
    } else {
        cells.serving_tech.clone()
    };
    let cell_id = if cells.serving_cell_id == 0 {
        match serving {
            Some(cell) => cell.cell_id,
            None => 0,
        }
    } else {
        cells.serving_cell_id
    };
    let band = match serving {
        Some(cell) => {
            let band = text::trim(cell.band.as_str());
            if band.as_str().is_empty() {
                None
            } else {
                Some(band)
            }
        },
        None => None,
    };
    let mcc = match &network.mcc {
        Some(mcc) => mcc.clone(),
        None => String::new(),
    };
    let mnc = match &network.mnc {
        Some(mnc) => mnc.clone(),
        None => String::new(),
    };
    Ok(ServingAccess { mcc, mnc, technology, cell_id, tac: cells.serving_tac, band })
}

pub open spec fn presence(present: bool) -> Seq<char> {
    if present {
        "present"@
    } else {
        "missing"@
    }
}

fn presence_word(present: bool) -> (r: &'static str)
    ensures
        r@ == presence(present),
{
    if present {
        "present"
    } else {
        "missing"
    }
}

/// Why a serving cell cannot be reported: what of it is there and what is not.
pub fn incomplete_snapshot_error(network: &NetworkInfo, access: &ServingAccess) -> (r: String)
    ensures
        r@ == "access_network_snapshot_incomplete:tech="@ + access.technology@ + ";plmn="@
            + presence(network.mcc is Some && network.mnc is Some) + ";cell="@ + presence(
            access.cell_id != 0,
        ) + ";tac="@ + presence(access.tac != 0),
{
    let mut reason = "access_network_snapshot_incomplete:tech=".to_string();
    reason.append(access.technology.as_str());
    reason.append(";plmn=");
    reason.append(presence_word(network.mcc.is_some() && network.mnc.is_some()));
    reason.append(";cell=");
    reason.append(presence_word(access.cell_id != 0));
    reason.append(";tac=");
    reason.append(presence_word(access.tac != 0));
    reason
}

} // verus!
