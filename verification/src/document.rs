//! The shape of the server's time-registration document, as plain
//! values.
//!
//! These structs mirror the container document that the server returns:
//! a card pane describing the period and a table pane holding one record
//! per (job, task) line. Per-day amounts are carried as whole minutes.
//! Decoding the wire JSON into these values happens outside the
//! library; the logic here reads them.

use vstd::prelude::*;
use vstd::string::StringExecFns;

verus! {

pub struct Meta {
    pub container_instance_id: String,
}

pub struct Link {
    pub rel: String,
    pub href: String,
}

pub struct CardMeta {
    pub pane_name: String,
    pub row_count: u32,
    pub row_offset: i64,
}

pub struct CardData {
    pub employeenumber: String,
    pub periodstartvar: String,
    pub periodendvar: String,
    pub employeenamevar: String,
    pub datevar: String,
    pub weeknumbervar: u8,
    pub partvar: String,
}

pub struct CardRecord {
    pub data: CardData,
}

pub struct Card {
    pub meta: CardMeta,
    pub links: Vec<Link>,
    pub records: Vec<CardRecord>,
}

pub struct TableMeta {
    pub pane_name: String,
    pub row_count: u32,
    pub row_offset: i64,
}

/// One line of the table pane; the seven `numberday` fields hold the
/// registered minutes for Monday through Sunday.
pub struct TableData {
    pub jobnumber: String,
    pub numberday1: u32,
    pub numberday2: u32,
    pub numberday3: u32,
    pub numberday4: u32,
    pub numberday5: u32,
    pub numberday6: u32,
    pub numberday7: u32,
    pub entrytext: String,
    pub taskname: String,
    pub approvalstatus: String,
    pub instancekey: String,
    pub timeregistrationunit: String,
    pub jobnamevar: String,
    pub tasktextvar: String,
}

pub struct TableRecord {
    pub data: TableData,
}

pub struct Table {
    pub meta: TableMeta,
    pub records: Vec<TableRecord>,
}

pub struct Panes {
    pub card: Card,
    pub table: Table,
}

pub struct TimeRegistration {
    pub meta: Meta,
    pub panes: Panes,
}

/// The link relation the server adds to the card pane when the targeted
/// week has no time sheet yet and offers the create-timesheet action.
pub open spec fn create_timesheet_rel() -> Seq<char> {
    "action:createtimesheet"@
}

pub open spec fn spec_has_create_action(links: Seq<Link>) -> bool {
    exists|i: int| 0 <= i < links.len() && (#[trigger] links[i].rel)@ == create_timesheet_rel()
}

/// Whether the document offers the create-timesheet action, the signal
/// that the week has not been initialized yet.
pub fn has_create_timesheet_action(card: &Card) -> (r: bool)
    ensures
        r == spec_has_create_action(card.links@),
{
    let needle: String = String::from_str("action:createtimesheet");
    let mut i: usize = 0;
    while i < card.links.len()
        invariant
            0 <= i <= card.links@.len(),
            needle@ == create_timesheet_rel(),
            forall|j: int| 0 <= j < i ==> (#[trigger] card.links@[j].rel)@ != create_timesheet_rel(),
        decreases card.links@.len() - i,
    {
        if card.links[i].rel == needle {
            return true;
        }
        i = i + 1;
    }
    false
}

} // verus!
