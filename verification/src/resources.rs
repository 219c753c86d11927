//! Concrete resource types: bridge ports and bridges' VLAN tables, ethernet
//! and wireless interfaces, and the device's system record.

use vstd::prelude::*;

use crate::RosError;
use crate::ValueFormat;
use crate::duration::Duration;
use crate::field::RosFieldValue;
use crate::field::accepts_text;
use crate::resource::FieldDescription;
use crate::resource::FieldSelector;
use crate::resource::RouterOsApiFieldAccess;
use crate::resource::RouterOsListResource;
use crate::resource::RouterOsResource;
use crate::resource::RouterOsSingleResource;
use crate::resource::resource_empty;
use crate::ranges::ValueRange;
use crate::sets::ValueSet;

verus! {

/// A port of a bridge: which interface is enslaved to which bridge.
#[derive(Debug, Clone)]
pub struct BridgePort {
    pub id: RosFieldValue<String>,
    pub bridge: RosFieldValue<String>,
    pub interface: RosFieldValue<String>,
    pub comment: RosFieldValue<String>,
    pub pvid: RosFieldValue<u16>,
    pub disabled: RosFieldValue<bool>,
    pub dynamic: RosFieldValue<bool>,
}

impl RouterOsApiFieldAccess for BridgePort {
    open spec fn field_count_spec() -> nat {
        7
    }

    open spec fn field_name_spec(i: int) -> Seq<char> {
        if i == 0 {
            ".id"@
        } else if i == 1 {
            "bridge"@
        } else if i == 2 {
            "interface"@
        } else if i == 3 {
            "comment"@
        } else if i == 4 {
            "pvid"@
        } else if i == 5 {
            "disabled"@
        } else {
            "dynamic"@
        }
    }

    open spec fn field_is_id_spec(i: int) -> bool {
        i == 0
    }

    open spec fn field_read_only_spec(i: int) -> bool {
        i == 0 || i == 6
    }

    open spec fn field_orig_spec(&self, i: int) -> Seq<char> {
        if i == 0 {
            self.id.orig()
        } else if i == 1 {
            self.bridge.orig()
        } else if i == 2 {
            self.interface.orig()
        } else if i == 3 {
            self.comment.orig()
        } else if i == 4 {
            self.pvid.orig()
        } else if i == 5 {
            self.disabled.orig()
        } else {
            self.dynamic.orig()
        }
    }

    open spec fn field_has_value_spec(&self, i: int) -> bool {
        if i == 0 {
            self.id.cur() is Some
        } else if i == 1 {
            self.bridge.cur() is Some
        } else if i == 2 {
            self.interface.cur() is Some
        } else if i == 3 {
            self.comment.cur() is Some
        } else if i == 4 {
            self.pvid.cur() is Some
        } else if i == 5 {
            self.disabled.cur() is Some
        } else {
            self.dynamic.cur() is Some
        }
    }

    open spec fn field_modified_spec(&self, i: int, f: ValueFormat) -> Option<Seq<char>> {
        if i == 0 {
            self.id.modified_spec(f)
        } else if i == 1 {
            self.bridge.modified_spec(f)
        } else if i == 2 {
            self.interface.modified_spec(f)
        } else if i == 3 {
            self.comment.modified_spec(f)
        } else if i == 4 {
            self.pvid.modified_spec(f)
        } else if i == 5 {
            self.disabled.modified_spec(f)
        } else {
            self.dynamic.modified_spec(f)
        }
    }

    open spec fn field_value_spec(&self, i: int, f: ValueFormat) -> Seq<char> {
        if i == 0 {
            self.id.api_value_spec(f)
        } else if i == 1 {
            self.bridge.api_value_spec(f)
        } else if i == 2 {
            self.interface.api_value_spec(f)
        } else if i == 3 {
            self.comment.api_value_spec(f)
        } else if i == 4 {
            self.pvid.api_value_spec(f)
        } else if i == 5 {
            self.disabled.api_value_spec(f)
        } else {
            self.dynamic.api_value_spec(f)
        }
    }

    open spec fn field_accepts_spec(i: int, value: Seq<char>) -> bool {
        if i == 0 {
            accepts_text::<String>(value)
        } else if i == 1 {
            accepts_text::<String>(value)
        } else if i == 2 {
            accepts_text::<String>(value)
        } else if i == 3 {
            accepts_text::<String>(value)
        } else if i == 4 {
            accepts_text::<u16>(value)
        } else if i == 5 {
            accepts_text::<bool>(value)
        } else {
            accepts_text::<bool>(value)
        }
    }

    open spec fn is_dynamic_spec(&self) -> bool {
        self.dynamic.cur() == Some(true)
    }

    proof fn field_layout_wf() {
        reveal_strlit(".id");
        reveal_strlit("bridge");
        reveal_strlit("interface");
        reveal_strlit("comment");
        reveal_strlit("pvid");
        reveal_strlit("disabled");
        reveal_strlit("dynamic");
        assert(".id"@.len() == 3);
        assert("bridge"@.len() == 6);
        assert("interface"@.len() == 9);
        assert("comment"@.len() == 7);
        assert("pvid"@.len() == 4);
        assert("disabled"@.len() == 8);
        assert("dynamic"@.len() == 7);
        assert("comment"@[0] != "dynamic"@[0]);
    }

    fn field_count() -> (n: usize) {
        7
    }

    fn field_description(i: usize) -> (d: FieldDescription) {
        if i == 0 {
            FieldDescription { name: ".id", is_read_only: true, is_id: true }
        } else if i == 1 {
            FieldDescription { name: "bridge", is_read_only: false, is_id: false }
        } else if i == 2 {
            FieldDescription { name: "interface", is_read_only: false, is_id: false }
        } else if i == 3 {
            FieldDescription { name: "comment", is_read_only: false, is_id: false }
        } else if i == 4 {
            FieldDescription { name: "pvid", is_read_only: false, is_id: false }
        } else if i == 5 {
            FieldDescription { name: "disabled", is_read_only: false, is_id: false }
        } else {
            FieldDescription { name: "dynamic", is_read_only: true, is_id: false }
        }
    }

    fn field_has_value(&self, i: usize) -> (r: bool) {
        if i == 0 {
            self.id.has_value()
        } else if i == 1 {
            self.bridge.has_value()
        } else if i == 2 {
            self.interface.has_value()
        } else if i == 3 {
            self.comment.has_value()
        } else if i == 4 {
            self.pvid.has_value()
        } else if i == 5 {
            self.disabled.has_value()
        } else {
            self.dynamic.has_value()
        }
    }

    fn field_modified_value(&self, i: usize, format: &ValueFormat) -> (r: Option<String>) {
        if i == 0 {
            self.id.modified_value(format)
        } else if i == 1 {
            self.bridge.modified_value(format)
        } else if i == 2 {
            self.interface.modified_value(format)
        } else if i == 3 {
            self.comment.modified_value(format)
        } else if i == 4 {
            self.pvid.modified_value(format)
        } else if i == 5 {
            self.disabled.modified_value(format)
        } else {
            self.dynamic.modified_value(format)
        }
    }

    fn field_api_value(&self, i: usize, format: &ValueFormat) -> (r: String) {
        if i == 0 {
            self.id.api_value(format)
        } else if i == 1 {
            self.bridge.api_value(format)
        } else if i == 2 {
            self.interface.api_value(format)
        } else if i == 3 {
            self.comment.api_value(format)
        } else if i == 4 {
            self.pvid.api_value(format)
        } else if i == 5 {
            self.disabled.api_value(format)
        } else {
            self.dynamic.api_value(format)
        }
    }

    fn field_set_from_api(&mut self, i: usize, value: &str) -> (r: Result<(), RosError>) {
        if i == 0 {
            self.id.set_from_api(value)
        } else if i == 1 {
            self.bridge.set_from_api(value)
        } else if i == 2 {
            self.interface.set_from_api(value)
        } else if i == 3 {
            self.comment.set_from_api(value)
        } else if i == 4 {
            self.pvid.set_from_api(value)
        } else if i == 5 {
            self.disabled.set_from_api(value)
        } else {
            self.dynamic.set_from_api(value)
        }
    }

    fn is_dynamic(&self) -> (r: bool) {
        match self.dynamic.get() {
            Some(b) => *b,
            None => false,
        }
    }
}

impl RouterOsResource for BridgePort {
    open spec fn resource_path_spec() -> Seq<char> {
        "interface/bridge/port"@
    }

    fn resource_path() -> (r: &'static str) {
        "interface/bridge/port"
    }

    fn new_default() -> (r: Self) {
        BridgePort {
            id: Default::default(),
            bridge: Default::default(),
            interface: Default::default(),
            comment: Default::default(),
            pvid: Default::default(),
            disabled: Default::default(),
            dynamic: Default::default(),
        }
    }
}

impl RouterOsListResource for BridgePort {

}

impl Default for BridgePort {
    fn default() -> (r: Self)
        ensures
            resource_empty(r),
    {
        BridgePort::new_default()
    }
}

/// Selects the `bridge` field of a bridge port.
#[derive(Clone, Copy)]
pub struct BridgePortBridgeField;

impl FieldSelector<BridgePort> for BridgePortBridgeField {
    type Value = String;

    open spec fn cell_spec(r: BridgePort) -> RosFieldValue<String> {
        r.bridge
    }

    open spec fn update_spec(r: BridgePort, c: RosFieldValue<String>) -> BridgePort {
        BridgePort { bridge: c, ..r }
    }

    proof fn lens_laws(r: BridgePort, c: RosFieldValue<String>) {
    }

    fn get<'a>(&self, r: &'a BridgePort) -> (c: &'a RosFieldValue<String>) {
        &r.bridge
    }

    fn get_mut<'a>(&self, r: &'a mut BridgePort) -> (c: &'a mut RosFieldValue<String>) {
        &mut r.bridge
    }
}

/// Selects the `interface` field of a bridge port.
#[derive(Clone, Copy)]
pub struct BridgePortInterfaceField;

impl FieldSelector<BridgePort> for BridgePortInterfaceField {
    type Value = String;

    open spec fn cell_spec(r: BridgePort) -> RosFieldValue<String> {
        r.interface
    }

    open spec fn update_spec(r: BridgePort, c: RosFieldValue<String>) -> BridgePort {
        BridgePort { interface: c, ..r }
    }

    proof fn lens_laws(r: BridgePort, c: RosFieldValue<String>) {
    }

    fn get<'a>(&self, r: &'a BridgePort) -> (c: &'a RosFieldValue<String>) {
        &r.interface
    }

    fn get_mut<'a>(&self, r: &'a mut BridgePort) -> (c: &'a mut RosFieldValue<String>) {
        &mut r.interface
    }
}

/// Selects the `comment` field of a bridge port.
#[derive(Clone, Copy)]
pub struct BridgePortCommentField;

impl FieldSelector<BridgePort> for BridgePortCommentField {
    type Value = String;

    open spec fn cell_spec(r: BridgePort) -> RosFieldValue<String> {
        r.comment
    }

    open spec fn update_spec(r: BridgePort, c: RosFieldValue<String>) -> BridgePort {
        BridgePort { comment: c, ..r }
    }

    proof fn lens_laws(r: BridgePort, c: RosFieldValue<String>) {
    }

    fn get<'a>(&self, r: &'a BridgePort) -> (c: &'a RosFieldValue<String>) {
        &r.comment
    }

    fn get_mut<'a>(&self, r: &'a mut BridgePort) -> (c: &'a mut RosFieldValue<String>) {
        &mut r.comment
    }
}


/// A bridge's VLAN table row: which ports carry which VLAN ids.
#[derive(Debug, Clone)]
pub struct BridgeVlan {
    pub id: RosFieldValue<String>,
    pub bridge: RosFieldValue<String>,
    pub disabled: RosFieldValue<bool>,
    pub tagged: RosFieldValue<ValueSet<String>>,
    pub untagged: RosFieldValue<ValueSet<String>>,
    pub vlan_ids: RosFieldValue<ValueSet<ValueRange<u16>>>,
}

impl RouterOsApiFieldAccess for BridgeVlan {
    open spec fn field_count_spec() -> nat {
        6
    }

    open spec fn field_name_spec(i: int) -> Seq<char> {
        if i == 0 {
            ".id"@
        } else if i == 1 {
            "bridge"@
        } else if i == 2 {
            "disabled"@
        } else if i == 3 {
            "tagged"@
        } else if i == 4 {
            "untagged"@
        } else {
            "vlan-ids"@
        }
    }

    open spec fn field_is_id_spec(i: int) -> bool {
        i == 0
    }

    open spec fn field_read_only_spec(i: int) -> bool {
        i == 0
    }

    open spec fn field_orig_spec(&self, i: int) -> Seq<char> {
        if i == 0 {
            self.id.orig()
        } else if i == 1 {
            self.bridge.orig()
        } else if i == 2 {
            self.disabled.orig()
        } else if i == 3 {
            self.tagged.orig()
        } else if i == 4 {
            self.untagged.orig()
        } else {
            self.vlan_ids.orig()
        }
    }

    open spec fn field_has_value_spec(&self, i: int) -> bool {
        if i == 0 {
            self.id.cur() is Some
        } else if i == 1 {
            self.bridge.cur() is Some
        } else if i == 2 {
            self.disabled.cur() is Some
        } else if i == 3 {
            self.tagged.cur() is Some
        } else if i == 4 {
            self.untagged.cur() is Some
        } else {
            self.vlan_ids.cur() is Some
        }
    }

    open spec fn field_modified_spec(&self, i: int, f: ValueFormat) -> Option<Seq<char>> {
        if i == 0 {
            self.id.modified_spec(f)
        } else if i == 1 {
            self.bridge.modified_spec(f)
        } else if i == 2 {
            self.disabled.modified_spec(f)
        } else if i == 3 {
            self.tagged.modified_spec(f)
        } else if i == 4 {
            self.untagged.modified_spec(f)
        } else {
            self.vlan_ids.modified_spec(f)
        }
    }

    open spec fn field_value_spec(&self, i: int, f: ValueFormat) -> Seq<char> {
        if i == 0 {
            self.id.api_value_spec(f)
        } else if i == 1 {
            self.bridge.api_value_spec(f)
        } else if i == 2 {
            self.disabled.api_value_spec(f)
        } else if i == 3 {
            self.tagged.api_value_spec(f)
        } else if i == 4 {
            self.untagged.api_value_spec(f)
        } else {
            self.vlan_ids.api_value_spec(f)
        }
    }

    open spec fn field_accepts_spec(i: int, value: Seq<char>) -> bool {
        if i == 0 {
            accepts_text::<String>(value)
        } else if i == 1 {
            accepts_text::<String>(value)
        } else if i == 2 {
            accepts_text::<bool>(value)
        } else if i == 3 {
            accepts_text::<ValueSet<String>>(value)
        } else if i == 4 {
            accepts_text::<ValueSet<String>>(value)
        } else {
            accepts_text::<ValueSet<ValueRange<u16>>>(value)
        }
    }

    open spec fn is_dynamic_spec(&self) -> bool {
        false
    }

    proof fn field_layout_wf() {
        reveal_strlit(".id");
        reveal_strlit("bridge");
        reveal_strlit("disabled");
        reveal_strlit("tagged");
        reveal_strlit("untagged");
        reveal_strlit("vlan-ids");
        assert(".id"@.len() == 3);
        assert("bridge"@.len() == 6);
        assert("disabled"@.len() == 8);
        assert("tagged"@.len() == 6);
        assert("untagged"@.len() == 8);
        assert("vlan-ids"@.len() == 8);
        assert("bridge"@[0] != "tagged"@[0]);
        assert("disabled"@[0] != "untagged"@[0]);
        assert("disabled"@[0] != "vlan-ids"@[0]);
        assert("untagged"@[0] != "vlan-ids"@[0]);
    }

    fn field_count() -> (n: usize) {
        6
    }

    fn field_description(i: usize) -> (d: FieldDescription) {
        if i == 0 {
            FieldDescription { name: ".id", is_read_only: true, is_id: true }
        } else if i == 1 {
            FieldDescription { name: "bridge", is_read_only: false, is_id: false }
        } else if i == 2 {
            FieldDescription { name: "disabled", is_read_only: false, is_id: false }
        } else if i == 3 {
            FieldDescription { name: "tagged", is_read_only: false, is_id: false }
        } else if i == 4 {
            FieldDescription { name: "untagged", is_read_only: false, is_id: false }
        } else {
            FieldDescription { name: "vlan-ids", is_read_only: false, is_id: false }
        }
    }

    fn field_has_value(&self, i: usize) -> (r: bool) {
        if i == 0 {
            self.id.has_value()
        } else if i == 1 {
            self.bridge.has_value()
        } else if i == 2 {
            self.disabled.has_value()
        } else if i == 3 {
            self.tagged.has_value()
        } else if i == 4 {
            self.untagged.has_value()
        } else {
            self.vlan_ids.has_value()
        }
    }

    fn field_modified_value(&self, i: usize, format: &ValueFormat) -> (r: Option<String>) {
        if i == 0 {
            self.id.modified_value(format)
        } else if i == 1 {
            self.bridge.modified_value(format)
        } else if i == 2 {
            self.disabled.modified_value(format)
        } else if i == 3 {
            self.tagged.modified_value(format)
        } else if i == 4 {
            self.untagged.modified_value(format)
        } else {
            self.vlan_ids.modified_value(format)
        }
    }

    fn field_api_value(&self, i: usize, format: &ValueFormat) -> (r: String) {
        if i == 0 {
            self.id.api_value(format)
        } else if i == 1 {
            self.bridge.api_value(format)
        } else if i == 2 {
            self.disabled.api_value(format)
        } else if i == 3 {
            self.tagged.api_value(format)
        } else if i == 4 {
            self.untagged.api_value(format)
        } else {
            self.vlan_ids.api_value(format)
        }
    }

    fn field_set_from_api(&mut self, i: usize, value: &str) -> (r: Result<(), RosError>) {
        if i == 0 {
            self.id.set_from_api(value)
        } else if i == 1 {
            self.bridge.set_from_api(value)
        } else if i == 2 {
            self.disabled.set_from_api(value)
        } else if i == 3 {
            self.tagged.set_from_api(value)
        } else if i == 4 {
            self.untagged.set_from_api(value)
        } else {
            self.vlan_ids.set_from_api(value)
        }
    }

    fn is_dynamic(&self) -> (r: bool) {
        false
    }
}

impl RouterOsResource for BridgeVlan {
    open spec fn resource_path_spec() -> Seq<char> {
        "interface/bridge/vlan"@
    }

    fn resource_path() -> (r: &'static str) {
        "interface/bridge/vlan"
    }

    fn new_default() -> (r: Self) {
        BridgeVlan {
            id: Default::default(),
            bridge: Default::default(),
            disabled: Default::default(),
            tagged: Default::default(),
            untagged: Default::default(),
            vlan_ids: Default::default(),
        }
    }
}

impl RouterOsListResource for BridgeVlan {

}

impl Default for BridgeVlan {
    fn default() -> (r: Self)
        ensures
            resource_empty(r),
    {
        BridgeVlan::new_default()
    }
}

/// Selects the `bridge` field of a bridge VLAN row.
#[derive(Clone, Copy)]
pub struct BridgeVlanBridgeField;

impl FieldSelector<BridgeVlan> for BridgeVlanBridgeField {
    type Value = String;

    open spec fn cell_spec(r: BridgeVlan) -> RosFieldValue<String> {
        r.bridge
    }

    open spec fn update_spec(r: BridgeVlan, c: RosFieldValue<String>) -> BridgeVlan {
        BridgeVlan { bridge: c, ..r }
    }

    proof fn lens_laws(r: BridgeVlan, c: RosFieldValue<String>) {
    }

    fn get<'a>(&self, r: &'a BridgeVlan) -> (c: &'a RosFieldValue<String>) {
        &r.bridge
    }

    fn get_mut<'a>(&self, r: &'a mut BridgeVlan) -> (c: &'a mut RosFieldValue<String>) {
        &mut r.bridge
    }
}

/// A physical ethernet interface.
#[derive(Debug, Clone)]
pub struct Ethernet {
    pub id: RosFieldValue<String>,
    pub default_name: RosFieldValue<String>,
    pub name: RosFieldValue<String>,
    pub comment: RosFieldValue<String>,
}

impl RouterOsApiFieldAccess for Ethernet {
    open spec fn field_count_spec() -> nat {
        4
    }

    open spec fn field_name_spec(i: int) -> Seq<char> {
        if i == 0 {
            ".id"@
        } else if i == 1 {
            "default-name"@
        } else if i == 2 {
            "name"@
        } else {
            "comment"@
        }
    }

    open spec fn field_is_id_spec(i: int) -> bool {
        i == 0
    }

    open spec fn field_read_only_spec(i: int) -> bool {
        i == 0 || i == 1
    }

    open spec fn field_orig_spec(&self, i: int) -> Seq<char> {
        if i == 0 {
            self.id.orig()
        } else if i == 1 {
            self.default_name.orig()
        } else if i == 2 {
            self.name.orig()
        } else {
            self.comment.orig()
        }
    }

    open spec fn field_has_value_spec(&self, i: int) -> bool {
        if i == 0 {
            self.id.cur() is Some
        } else if i == 1 {
            self.default_name.cur() is Some
        } else if i == 2 {
            self.name.cur() is Some
        } else {
            self.comment.cur() is Some
        }
    }

    open spec fn field_modified_spec(&self, i: int, f: ValueFormat) -> Option<Seq<char>> {
        if i == 0 {
            self.id.modified_spec(f)
        } else if i == 1 {
            self.default_name.modified_spec(f)
        } else if i == 2 {
            self.name.modified_spec(f)
        } else {
            self.comment.modified_spec(f)
        }
    }

    open spec fn field_value_spec(&self, i: int, f: ValueFormat) -> Seq<char> {
        if i == 0 {
            self.id.api_value_spec(f)
        } else if i == 1 {
            self.default_name.api_value_spec(f)
        } else if i == 2 {
            self.name.api_value_spec(f)
        } else {
            self.comment.api_value_spec(f)
        }
    }

    open spec fn field_accepts_spec(i: int, value: Seq<char>) -> bool {
        if i == 0 {
            accepts_text::<String>(value)
        } else if i == 1 {
            accepts_text::<String>(value)
        } else if i == 2 {
            accepts_text::<String>(value)
        } else {
            accepts_text::<String>(value)
        }
    }

    open spec fn is_dynamic_spec(&self) -> bool {
        false
    }

    proof fn field_layout_wf() {
        reveal_strlit(".id");
        reveal_strlit("default-name");
        reveal_strlit("name");
        reveal_strlit("comment");
        assert(".id"@.len() == 3);
        assert("default-name"@.len() == 12);
        assert("name"@.len() == 4);
        assert("comment"@.len() == 7);
    }

    fn field_count() -> (n: usize) {
        4
    }

    fn field_description(i: usize) -> (d: FieldDescription) {
        if i == 0 {
            FieldDescription { name: ".id", is_read_only: true, is_id: true }
        } else if i == 1 {
            FieldDescription { name: "default-name", is_read_only: true, is_id: false }
        } else if i == 2 {
            FieldDescription { name: "name", is_read_only: false, is_id: false }
        } else {
            FieldDescription { name: "comment", is_read_only: false, is_id: false }
        }
    }

    fn field_has_value(&self, i: usize) -> (r: bool) {
        if i == 0 {
            self.id.has_value()
        } else if i == 1 {
            self.default_name.has_value()
        } else if i == 2 {
            self.name.has_value()
        } else {
            self.comment.has_value()
        }
    }

    fn field_modified_value(&self, i: usize, format: &ValueFormat) -> (r: Option<String>) {
        if i == 0 {
            self.id.modified_value(format)
        } else if i == 1 {
            self.default_name.modified_value(format)
        } else if i == 2 {
            self.name.modified_value(format)
        } else {
            self.comment.modified_value(format)
        }
    }

    fn field_api_value(&self, i: usize, format: &ValueFormat) -> (r: String) {
        if i == 0 {
            self.id.api_value(format)
        } else if i == 1 {
            self.default_name.api_value(format)
        } else if i == 2 {
            self.name.api_value(format)
        } else {
            self.comment.api_value(format)
        }
    }

    fn field_set_from_api(&mut self, i: usize, value: &str) -> (r: Result<(), RosError>) {
        if i == 0 {
            self.id.set_from_api(value)
        } else if i == 1 {
            self.default_name.set_from_api(value)
        } else if i == 2 {
            self.name.set_from_api(value)
        } else {
            self.comment.set_from_api(value)
        }
    }

    fn is_dynamic(&self) -> (r: bool) {
        false
    }
}

impl RouterOsResource for Ethernet {
    open spec fn resource_path_spec() -> Seq<char> {
        "interface/ethernet"@
    }

    fn resource_path() -> (r: &'static str) {
        "interface/ethernet"
    }

    fn new_default() -> (r: Self) {
        Ethernet {
            id: Default::default(),
            default_name: Default::default(),
            name: Default::default(),
            comment: Default::default(),
        }
    }
}

impl RouterOsListResource for Ethernet {

}

impl Default for Ethernet {
    fn default() -> (r: Self)
        ensures
            resource_empty(r),
    {
        Ethernet::new_default()
    }
}

/// Selects the `default_name` field of an ethernet interface.
#[derive(Clone, Copy)]
pub struct EthernetDefaultNameField;

impl FieldSelector<Ethernet> for EthernetDefaultNameField {
    type Value = String;

    open spec fn cell_spec(r: Ethernet) -> RosFieldValue<String> {
        r.default_name
    }

    open spec fn update_spec(r: Ethernet, c: RosFieldValue<String>) -> Ethernet {
        Ethernet { default_name: c, ..r }
    }

    proof fn lens_laws(r: Ethernet, c: RosFieldValue<String>) {
    }

    fn get<'a>(&self, r: &'a Ethernet) -> (c: &'a RosFieldValue<String>) {
        &r.default_name
    }

    fn get_mut<'a>(&self, r: &'a mut Ethernet) -> (c: &'a mut RosFieldValue<String>) {
        &mut r.default_name
    }
}

/// Selects the `name` field of an ethernet interface.
#[derive(Clone, Copy)]
pub struct EthernetNameField;

impl FieldSelector<Ethernet> for EthernetNameField {
    type Value = String;

    open spec fn cell_spec(r: Ethernet) -> RosFieldValue<String> {
        r.name
    }

    open spec fn update_spec(r: Ethernet, c: RosFieldValue<String>) -> Ethernet {
        Ethernet { name: c, ..r }
    }

    proof fn lens_laws(r: Ethernet, c: RosFieldValue<String>) {
    }

    fn get<'a>(&self, r: &'a Ethernet) -> (c: &'a RosFieldValue<String>) {
        &r.name
    }

    fn get_mut<'a>(&self, r: &'a mut Ethernet) -> (c: &'a mut RosFieldValue<String>) {
        &mut r.name
    }
}

/// A wireless interface.
#[derive(Debug, Clone)]
pub struct Wireless {
    pub id: RosFieldValue<String>,
    pub default_name: RosFieldValue<String>,
    pub name: RosFieldValue<String>,
}

impl RouterOsApiFieldAccess for Wireless {
    open spec fn field_count_spec() -> nat {
        3
    }

    open spec fn field_name_spec(i: int) -> Seq<char> {
        if i == 0 {
            ".id"@
        } else if i == 1 {
            "default-name"@
        } else {
            "name"@
        }
    }

    open spec fn field_is_id_spec(i: int) -> bool {
        i == 0
    }

    open spec fn field_read_only_spec(i: int) -> bool {
        i == 0 || i == 1
    }

    open spec fn field_orig_spec(&self, i: int) -> Seq<char> {
        if i == 0 {
            self.id.orig()
        } else if i == 1 {
            self.default_name.orig()
        } else {
            self.name.orig()
        }
    }

    open spec fn field_has_value_spec(&self, i: int) -> bool {
        if i == 0 {
            self.id.cur() is Some
        } else if i == 1 {
            self.default_name.cur() is Some
        } else {
            self.name.cur() is Some
        }
    }

    open spec fn field_modified_spec(&self, i: int, f: ValueFormat) -> Option<Seq<char>> {
        if i == 0 {
            self.id.modified_spec(f)
        } else if i == 1 {
            self.default_name.modified_spec(f)
        } else {
            self.name.modified_spec(f)
        }
    }

    open spec fn field_value_spec(&self, i: int, f: ValueFormat) -> Seq<char> {
        if i == 0 {
            self.id.api_value_spec(f)
        } else if i == 1 {
            self.default_name.api_value_spec(f)
        } else {
            self.name.api_value_spec(f)
        }
    }

    open spec fn field_accepts_spec(i: int, value: Seq<char>) -> bool {
        if i == 0 {
            accepts_text::<String>(value)
        } else if i == 1 {
            accepts_text::<String>(value)
        } else {
            accepts_text::<String>(value)
        }
    }

    open spec fn is_dynamic_spec(&self) -> bool {
        false
    }

    proof fn field_layout_wf() {
        reveal_strlit(".id");
        reveal_strlit("default-name");
        reveal_strlit("name");
        assert(".id"@.len() == 3);
        assert("default-name"@.len() == 12);
        assert("name"@.len() == 4);
    }

    fn field_count() -> (n: usize) {
        3
    }

    fn field_description(i: usize) -> (d: FieldDescription) {
        if i == 0 {
            FieldDescription { name: ".id", is_read_only: true, is_id: true }
        } else if i == 1 {
            FieldDescription { name: "default-name", is_read_only: true, is_id: false }
        } else {
            FieldDescription { name: "name", is_read_only: false, is_id: false }
        }
    }

    fn field_has_value(&self, i: usize) -> (r: bool) {
        if i == 0 {
            self.id.has_value()
        } else if i == 1 {
            self.default_name.has_value()
        } else {
            self.name.has_value()
        }
    }

    fn field_modified_value(&self, i: usize, format: &ValueFormat) -> (r: Option<String>) {
        if i == 0 {
            self.id.modified_value(format)
        } else if i == 1 {
            self.default_name.modified_value(format)
        } else {
            self.name.modified_value(format)
        }
    }

    fn field_api_value(&self, i: usize, format: &ValueFormat) -> (r: String) {
        if i == 0 {
            self.id.api_value(format)
        } else if i == 1 {
            self.default_name.api_value(format)
        } else {
            self.name.api_value(format)
        }
    }

    fn field_set_from_api(&mut self, i: usize, value: &str) -> (r: Result<(), RosError>) {
        if i == 0 {
            self.id.set_from_api(value)
        } else if i == 1 {
            self.default_name.set_from_api(value)
        } else {
            self.name.set_from_api(value)
        }
    }

    fn is_dynamic(&self) -> (r: bool) {
        false
    }
}

impl RouterOsResource for Wireless {
    open spec fn resource_path_spec() -> Seq<char> {
        "interface/wireless"@
    }

    fn resource_path() -> (r: &'static str) {
        "interface/wireless"
    }

    fn new_default() -> (r: Self) {
        Wireless {
            id: Default::default(),
            default_name: Default::default(),
            name: Default::default(),
        }
    }
}

impl RouterOsListResource for Wireless {

}

impl Default for Wireless {
    fn default() -> (r: Self)
        ensures
            resource_empty(r),
    {
        Wireless::new_default()
    }
}

/// Selects the `default_name` field of a wireless interface.
#[derive(Clone, Copy)]
pub struct WirelessDefaultNameField;

impl FieldSelector<Wireless> for WirelessDefaultNameField {
    type Value = String;

    open spec fn cell_spec(r: Wireless) -> RosFieldValue<String> {
        r.default_name
    }

    open spec fn update_spec(r: Wireless, c: RosFieldValue<String>) -> Wireless {
        Wireless { default_name: c, ..r }
    }

    proof fn lens_laws(r: Wireless, c: RosFieldValue<String>) {
    }

    fn get<'a>(&self, r: &'a Wireless) -> (c: &'a RosFieldValue<String>) {
        &r.default_name
    }

    fn get_mut<'a>(&self, r: &'a mut Wireless) -> (c: &'a mut RosFieldValue<String>) {
        &mut r.default_name
    }
}

/// The device's system record: board name, software version, uptime.
#[derive(Debug, Clone)]
pub struct SystemResource {
    pub board_name: RosFieldValue<String>,
    pub version: RosFieldValue<String>,
    pub uptime: RosFieldValue<Duration>,
}

impl RouterOsApiFieldAccess for SystemResource {
    open spec fn field_count_spec() -> nat {
        3
    }

    open spec fn field_name_spec(i: int) -> Seq<char> {
        if i == 0 {
            "board-name"@
        } else if i == 1 {
            "version"@
        } else {
            "uptime"@
        }
    }

    open spec fn field_is_id_spec(i: int) -> bool {
        false
    }

    open spec fn field_read_only_spec(i: int) -> bool {
        false
    }

    open spec fn field_orig_spec(&self, i: int) -> Seq<char> {
        if i == 0 {
            self.board_name.orig()
        } else if i == 1 {
            self.version.orig()
        } else {
            self.uptime.orig()
        }
    }

    open spec fn field_has_value_spec(&self, i: int) -> bool {
        if i == 0 {
            self.board_name.cur() is Some
        } else if i == 1 {
            self.version.cur() is Some
        } else {
            self.uptime.cur() is Some
        }
    }

    open spec fn field_modified_spec(&self, i: int, f: ValueFormat) -> Option<Seq<char>> {
        if i == 0 {
            self.board_name.modified_spec(f)
        } else if i == 1 {
            self.version.modified_spec(f)
        } else {
            self.uptime.modified_spec(f)
        }
    }

    open spec fn field_value_spec(&self, i: int, f: ValueFormat) -> Seq<char> {
        if i == 0 {
            self.board_name.api_value_spec(f)
        } else if i == 1 {
            self.version.api_value_spec(f)
        } else {
            self.uptime.api_value_spec(f)
        }
    }

    open spec fn field_accepts_spec(i: int, value: Seq<char>) -> bool {
        if i == 0 {
            accepts_text::<String>(value)
        } else if i == 1 {
            accepts_text::<String>(value)
        } else {
            accepts_text::<Duration>(value)
        }
    }

    open spec fn is_dynamic_spec(&self) -> bool {
        false
    }

    proof fn field_layout_wf() {
        reveal_strlit("board-name");
        reveal_strlit("version");
        reveal_strlit("uptime");
        assert("board-name"@.len() == 10);
        assert("version"@.len() == 7);
        assert("uptime"@.len() == 6);
    }

    fn field_count() -> (n: usize) {
        3
    }

    fn field_description(i: usize) -> (d: FieldDescription) {
        if i == 0 {
            FieldDescription { name: "board-name", is_read_only: false, is_id: false }
        } else if i == 1 {
            FieldDescription { name: "version", is_read_only: false, is_id: false }
        } else {
            FieldDescription { name: "uptime", is_read_only: false, is_id: false }
        }
    }

    fn field_has_value(&self, i: usize) -> (r: bool) {
        if i == 0 {
            self.board_name.has_value()
        } else if i == 1 {
            self.version.has_value()
        } else {
            self.uptime.has_value()
        }
    }

    fn field_modified_value(&self, i: usize, format: &ValueFormat) -> (r: Option<String>) {
        if i == 0 {
            self.board_name.modified_value(format)
        } else if i == 1 {
            self.version.modified_value(format)
        } else {
            self.uptime.modified_value(format)
        }
    }

    fn field_api_value(&self, i: usize, format: &ValueFormat) -> (r: String) {
        if i == 0 {
            self.board_name.api_value(format)
        } else if i == 1 {
            self.version.api_value(format)
        } else {
            self.uptime.api_value(format)
        }
    }

    fn field_set_from_api(&mut self, i: usize, value: &str) -> (r: Result<(), RosError>) {
        if i == 0 {
            self.board_name.set_from_api(value)
        } else if i == 1 {
            self.version.set_from_api(value)
        } else {
            self.uptime.set_from_api(value)
        }
    }

    fn is_dynamic(&self) -> (r: bool) {
        false
    }
}

impl RouterOsResource for SystemResource {
    open spec fn resource_path_spec() -> Seq<char> {
        "system/resource"@
    }

    fn resource_path() -> (r: &'static str) {
        "system/resource"
    }

    fn new_default() -> (r: Self) {
        SystemResource {
            board_name: Default::default(),
            version: Default::default(),
            uptime: Default::default(),
        }
    }
}

impl RouterOsSingleResource for SystemResource {

}

impl Default for SystemResource {
    fn default() -> (r: Self)
        ensures
            resource_empty(r),
    {
        SystemResource::new_default()
    }
}

/// Selects the `board_name` field of the system record.
#[derive(Clone, Copy)]
pub struct SystemResourceBoardNameField;

impl FieldSelector<SystemResource> for SystemResourceBoardNameField {
    type Value = String;

    open spec fn cell_spec(r: SystemResource) -> RosFieldValue<String> {
        r.board_name
    }

    open spec fn update_spec(r: SystemResource, c: RosFieldValue<String>) -> SystemResource {
        SystemResource { board_name: c, ..r }
    }

    proof fn lens_laws(r: SystemResource, c: RosFieldValue<String>) {
    }

    fn get<'a>(&self, r: &'a SystemResource) -> (c: &'a RosFieldValue<String>) {
        &r.board_name
    }

    fn get_mut<'a>(&self, r: &'a mut SystemResource) -> (c: &'a mut RosFieldValue<String>) {
        &mut r.board_name
    }
}

} // verus!
