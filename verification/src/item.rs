//! The pending items of the remote source, as a fetch answer lists them.

use crate::json::{views, Json, JsonView};
use vstd::prelude::*;
use vstd::string::StringExecFns;

verus! {

/// One pending item of the remote source.
#[derive(Debug, PartialEq)]
pub struct PendingItem {
    /// The remote row identifier; empty where the item has none.
    pub row_id: String,
    pub sku: String,
    pub module: String,
    /// The creation time as the remote source gives it; may be empty.
    pub create_time: String,
    /// The item's whole field map.
    pub fields: Json,
}

/// The model of a [`PendingItem`].
pub struct PendingItemView {
    pub row_id: Seq<char>,
    pub sku: Seq<char>,
    pub module: Seq<char>,
    pub create_time: Seq<char>,
    pub fields: JsonView,
}

impl View for PendingItem {
    type V = PendingItemView;

    open spec fn view(&self) -> PendingItemView {
        PendingItemView {
            row_id: self.row_id@,
            sku: self.sku@,
            module: self.module@,
            create_time: self.create_time@,
            fields: self.fields@,
        }
    }
}

impl PendingItemView {
    /// Whether the item becomes a task: both identifying fields are there.
    pub open spec fn workable(self) -> bool {
        self.sku.len() > 0 && self.module.len() > 0
    }
}

/// Whether a fetch answer says of itself that it failed: its `status` is
/// the string `Error`.
pub open spec fn reports_failure(envelope: JsonView) -> bool {
    envelope.get("status"@) matches Some(JsonView::Str(status)) && status == "Error"@
}

/// Whether a fetch answer says of itself that it failed.
pub fn envelope_reports_failure(envelope: &Json) -> (r: bool)
    ensures
        r == reports_failure(envelope@),
{
    match envelope.get("status") {
        Some(Json::Str(status)) => status.as_str().eq("Error"),
        _ => false,
    }
}

/// The items that a fetch answer lists: the array under `data`.
pub open spec fn listed_items(envelope: JsonView) -> Option<Seq<JsonView>> {
    match envelope.get("data"@) {
        Some(JsonView::Array(items)) => Some(items),
        _ => None,
    }
}

/// What an entry of the fetch answer says of an item. An entry without a
/// field map says nothing.
pub open spec fn item_of(raw: JsonView) -> Option<PendingItemView> {
    match raw.get("fields"@) {
        Some(fields) => Some(
            PendingItemView {
                row_id: raw.str_or("id"@, ""@),
                sku: fields.str_or("SKU"@, ""@),
                module: fields.str_or("调用PS模版"@, ""@),
                create_time: fields.str_or("创建时间"@, ""@),
                fields,
            },
        ),
        None => None,
    }
}

/// The item that an entry of the fetch answer stands for, where it is one
/// to work on.
pub open spec fn workable_item(raw: JsonView) -> Option<PendingItemView> {
    match item_of(raw) {
        Some(item) => if item.workable() {
            Some(item)
        } else {
            None
        },
        None => None,
    }
}

/// Takes the list of items out of a fetch answer.
pub fn take_items(envelope: Json) -> (r: Option<Vec<Json>>)
    ensures
        match r {
            Some(items) => listed_items(envelope@) == Some(views(items@)),
            None => listed_items(envelope@) is None,
        },
{
    match envelope.take("data") {
        Some(Json::Array(items)) => Some(items),
        _ => None,
    }
}

/// Reads an entry of the fetch answer.
pub fn read_item(raw: Json) -> (r: Option<PendingItem>)
    ensures
        match r {
            Some(item) => item_of(raw@) == Some(item@),
            None => item_of(raw@) is None,
        },
{
    let row_id = String::from_str(raw.str_or("id", ""));
    match raw.take("fields") {
        Some(fields) => {
            let sku = String::from_str(fields.str_or("SKU", ""));
            let module = String::from_str(fields.str_or("调用PS模版", ""));
            let create_time = String::from_str(fields.str_or("创建时间", ""));
            Some(PendingItem { row_id, sku, module, create_time, fields })
        },
        None => None,
    }
}

} // verus!
