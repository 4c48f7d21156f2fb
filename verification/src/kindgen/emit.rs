//! Archetype-specific emission. Each function returns a complete Rust
//! module body for one kind, and each is specified by the template it
//! fills in: the text below, with the spec's name, doc and numbers put
//! in their places.

use vstd::prelude::*;

use crate::text::{append_decimal, decimal};

verus! {

/// The module source of a vessel holding up to `capacity_ml` of water.
pub open spec fn liquid_container_text(name: Seq<char>, doc: Seq<char>, capacity_ml: nat) -> Seq<char> {
    "//! "@
        + doc
        + "\n\nuse crate::space::Vec2;\nuse crate::traits::{Liquid, LiquidContainer};\n\n#[derive(Debug, Clone, Copy)]\npub struct "@
        + name
        + " {\n    pub pos: Vec2,\n    water_ml: u32,\n}\n\nimpl "@
        + name
        + " {\n    pub const CAPACITY_ML: u32 = "@
        + decimal(capacity_ml)
        + ";\n\n    pub fn new(pos: Vec2) -> Self {\n        Self { pos, water_ml: 0 }\n    }\n\n    pub fn water_ml(&self) -> u32 { self.water_ml }\n\n    pub fn fill_fraction(&self) -> f32 {\n        (self.water_ml as f32 / Self::CAPACITY_ML as f32).clamp(0.0, 1.0)\n    }\n}\n\nimpl LiquidContainer for "@
        + name
        + " {\n    fn liquid(&self) -> Option<(Liquid, u32)> {\n        if self.water_ml > 0 { Some((Liquid::Water, self.water_ml)) } else { None }\n    }\n    fn capacity_ml(&self) -> u32 { Self::CAPACITY_ML }\n    fn add_liquid(&mut self, kind: Liquid, ml: u32) -> u32 {\n        if kind != Liquid::Water { return ml; }\n        let room = Self::CAPACITY_ML.saturating_sub(self.water_ml);\n        let taken = ml.min(room);\n        self.water_ml += taken;\n        ml - taken\n    }\n    fn drain_liquid(&mut self, ml: u32) -> (Liquid, u32) {\n        let taken = ml.min(self.water_ml);\n        self.water_ml -= taken;\n        (Liquid::Water, taken)\n    }\n}\n\n#[cfg(test)]\nmod tests {\n    use super::*;\n\n    #[test]\n    fn starts_empty() {\n        let m = "@
        + name
        + "::new(Vec2::new(0.0, 0.0));\n        assert_eq!(m.water_ml(), 0);\n        assert_eq!(m.fill_fraction(), 0.0);\n    }\n\n    #[test]\n    fn add_water_bounded_by_capacity() {\n        let mut m = "@
        + name
        + "::new(Vec2::new(0.0, 0.0));\n        let overflow = m.add_liquid(Liquid::Water, "@
        + name
        + "::CAPACITY_ML * 2);\n        assert_eq!(overflow, "@
        + name
        + "::CAPACITY_ML);\n        assert_eq!(m.water_ml(), "@
        + name
        + "::CAPACITY_ML);\n    }\n\n    #[test]\n    fn reject_non_water() {\n        let mut m = "@
        + name
        + "::new(Vec2::new(0.0, 0.0));\n        let overflow = m.add_liquid(Liquid::Coffee, 100);\n        assert_eq!(overflow, 100);\n        assert_eq!(m.water_ml(), 0);\n    }\n\n    #[test]\n    fn drain_removes_water() {\n        let mut m = "@
        + name
        + "::new(Vec2::new(0.0, 0.0));\n        m.add_liquid(Liquid::Water, 200);\n        let (kind, ml) = m.drain_liquid(50);\n        assert_eq!(kind, Liquid::Water);\n        assert_eq!(ml, 50);\n        assert_eq!(m.water_ml(), 150);\n    }\n}\n"@
}

pub(crate) fn simple_liquid_container(name: &str, doc: &str, capacity_ml: u32) -> (s: String)
    ensures
        s@ == liquid_container_text(name@, doc@, capacity_ml as nat),
{
    let mut s = String::from_str("//! ");
    s.append(doc);
    s.append("\n\nuse crate::space::Vec2;\nuse crate::traits::{Liquid, LiquidContainer};\n\n#[derive(Debug, Clone, Copy)]\npub struct ");
    s.append(name);
    s.append(" {\n    pub pos: Vec2,\n    water_ml: u32,\n}\n\nimpl ");
    s.append(name);
    s.append(" {\n    pub const CAPACITY_ML: u32 = ");
    append_decimal(&mut s, capacity_ml as u64);
    s.append(";\n\n    pub fn new(pos: Vec2) -> Self {\n        Self { pos, water_ml: 0 }\n    }\n\n    pub fn water_ml(&self) -> u32 { self.water_ml }\n\n    pub fn fill_fraction(&self) -> f32 {\n        (self.water_ml as f32 / Self::CAPACITY_ML as f32).clamp(0.0, 1.0)\n    }\n}\n\nimpl LiquidContainer for ");
    s.append(name);
    s.append(" {\n    fn liquid(&self) -> Option<(Liquid, u32)> {\n        if self.water_ml > 0 { Some((Liquid::Water, self.water_ml)) } else { None }\n    }\n    fn capacity_ml(&self) -> u32 { Self::CAPACITY_ML }\n    fn add_liquid(&mut self, kind: Liquid, ml: u32) -> u32 {\n        if kind != Liquid::Water { return ml; }\n        let room = Self::CAPACITY_ML.saturating_sub(self.water_ml);\n        let taken = ml.min(room);\n        self.water_ml += taken;\n        ml - taken\n    }\n    fn drain_liquid(&mut self, ml: u32) -> (Liquid, u32) {\n        let taken = ml.min(self.water_ml);\n        self.water_ml -= taken;\n        (Liquid::Water, taken)\n    }\n}\n\n#[cfg(test)]\nmod tests {\n    use super::*;\n\n    #[test]\n    fn starts_empty() {\n        let m = ");
    s.append(name);
    s.append("::new(Vec2::new(0.0, 0.0));\n        assert_eq!(m.water_ml(), 0);\n        assert_eq!(m.fill_fraction(), 0.0);\n    }\n\n    #[test]\n    fn add_water_bounded_by_capacity() {\n        let mut m = ");
    s.append(name);
    s.append("::new(Vec2::new(0.0, 0.0));\n        let overflow = m.add_liquid(Liquid::Water, ");
    s.append(name);
    s.append("::CAPACITY_ML * 2);\n        assert_eq!(overflow, ");
    s.append(name);
    s.append("::CAPACITY_ML);\n        assert_eq!(m.water_ml(), ");
    s.append(name);
    s.append("::CAPACITY_ML);\n    }\n\n    #[test]\n    fn reject_non_water() {\n        let mut m = ");
    s.append(name);
    s.append("::new(Vec2::new(0.0, 0.0));\n        let overflow = m.add_liquid(Liquid::Coffee, 100);\n        assert_eq!(overflow, 100);\n        assert_eq!(m.water_ml(), 0);\n    }\n\n    #[test]\n    fn drain_removes_water() {\n        let mut m = ");
    s.append(name);
    s.append("::new(Vec2::new(0.0, 0.0));\n        m.add_liquid(Liquid::Water, 200);\n        let (kind, ml) = m.drain_liquid(50);\n        assert_eq!(kind, Liquid::Water);\n        assert_eq!(ml, 50);\n        assert_eq!(m.water_ml(), 150);\n    }\n}\n");
    s
}

/// The module source of an on/off faucet flowing `flow_ml_per_sec`.
pub open spec fn faucet_text(name: Seq<char>, doc: Seq<char>, flow_ml_per_sec: nat) -> Seq<char> {
    "//! "@
        + doc
        + "\n\nuse crate::space::Vec2;\nuse crate::traits::{Liquid, LiquidSource, Switchable, TimeDecaySeconds};\n\n#[derive(Debug, Clone, Copy)]\npub struct "@
        + name
        + " {\n    pub pos: Vec2,\n    on: bool,\n    pub seconds_running: f32,\n}\n\nimpl "@
        + name
        + " {\n    pub const FLOW_ML_PER_SEC: u32 = "@
        + decimal(flow_ml_per_sec)
        + ";\n\n    pub fn new(pos: Vec2) -> Self {\n        Self { pos, on: false, seconds_running: 0.0 }\n    }\n}\n\nimpl Switchable for "@
        + name
        + " {\n    fn is_on(&self) -> bool { self.on }\n    fn toggle(&mut self) { self.on = !self.on; }\n}\n\nimpl LiquidSource for "@
        + name
        + " {\n    fn produced_liquid(&self) -> Liquid { Liquid::Water }\n    fn is_producing(&self) -> bool { self.on }\n    fn produce(&mut self, dt: f32) -> (Liquid, u32) {\n        if !self.on { return (Liquid::Water, 0); }\n        let ml = (Self::FLOW_ML_PER_SEC as f32 * dt) as u32;\n        (Liquid::Water, ml)\n    }\n}\n\nimpl TimeDecaySeconds for "@
        + name
        + " {\n    fn tick_real(&mut self, dt: f32) {\n        if self.on { self.seconds_running += dt; }\n    }\n}\n"@
}

pub(crate) fn switchable_faucet(name: &str, doc: &str, flow_ml_per_sec: u32) -> (s: String)
    ensures
        s@ == faucet_text(name@, doc@, flow_ml_per_sec as nat),
{
    let mut s = String::from_str("//! ");
    s.append(doc);
    s.append("\n\nuse crate::space::Vec2;\nuse crate::traits::{Liquid, LiquidSource, Switchable, TimeDecaySeconds};\n\n#[derive(Debug, Clone, Copy)]\npub struct ");
    s.append(name);
    s.append(" {\n    pub pos: Vec2,\n    on: bool,\n    pub seconds_running: f32,\n}\n\nimpl ");
    s.append(name);
    s.append(" {\n    pub const FLOW_ML_PER_SEC: u32 = ");
    append_decimal(&mut s, flow_ml_per_sec as u64);
    s.append(";\n\n    pub fn new(pos: Vec2) -> Self {\n        Self { pos, on: false, seconds_running: 0.0 }\n    }\n}\n\nimpl Switchable for ");
    s.append(name);
    s.append(" {\n    fn is_on(&self) -> bool { self.on }\n    fn toggle(&mut self) { self.on = !self.on; }\n}\n\nimpl LiquidSource for ");
    s.append(name);
    s.append(" {\n    fn produced_liquid(&self) -> Liquid { Liquid::Water }\n    fn is_producing(&self) -> bool { self.on }\n    fn produce(&mut self, dt: f32) -> (Liquid, u32) {\n        if !self.on { return (Liquid::Water, 0); }\n        let ml = (Self::FLOW_ML_PER_SEC as f32 * dt) as u32;\n        (Liquid::Water, ml)\n    }\n}\n\nimpl TimeDecaySeconds for ");
    s.append(name);
    s.append(" {\n    fn tick_real(&mut self, dt: f32) {\n        if self.on { self.seconds_running += dt; }\n    }\n}\n");
    s
}

/// The module source of a position-only decorative object.
pub open spec fn decorative_text(name: Seq<char>, doc: Seq<char>) -> Seq<char> {
    "//! "@
        + doc
        + "\n\nuse crate::space::Vec2;\n\n#[derive(Debug, Clone, Copy)]\npub struct "@
        + name
        + " {\n    pub pos: Vec2,\n}\n\nimpl "@
        + name
        + " {\n    pub fn new(pos: Vec2) -> Self {\n        Self { pos }\n    }\n}\n\n#[cfg(test)]\nmod tests {\n    use super::*;\n\n    #[test]\n    fn stores_pos() {\n        let x = "@
        + name
        + "::new(Vec2::new(3.0, 4.0));\n        assert_eq!(x.pos, Vec2::new(3.0, 4.0));\n    }\n}\n"@
}

pub(crate) fn decorative_item(name: &str, doc: &str) -> (s: String)
    ensures
        s@ == decorative_text(name@, doc@),
{
    let mut s = String::from_str("//! ");
    s.append(doc);
    s.append("\n\nuse crate::space::Vec2;\n\n#[derive(Debug, Clone, Copy)]\npub struct ");
    s.append(name);
    s.append(" {\n    pub pos: Vec2,\n}\n\nimpl ");
    s.append(name);
    s.append(" {\n    pub fn new(pos: Vec2) -> Self {\n        Self { pos }\n    }\n}\n\n#[cfg(test)]\nmod tests {\n    use super::*;\n\n    #[test]\n    fn stores_pos() {\n        let x = ");
    s.append(name);
    s.append("::new(Vec2::new(3.0, 4.0));\n        assert_eq!(x.pos, Vec2::new(3.0, 4.0));\n    }\n}\n");
    s
}

/// The module source of an object with an open/closed toggle.
pub open spec fn openable_text(name: Seq<char>, doc: Seq<char>) -> Seq<char> {
    "//! "@
        + doc
        + "\n\nuse crate::space::Vec2;\nuse crate::traits::Openable;\n\n#[derive(Debug, Clone, Copy)]\npub struct "@
        + name
        + " {\n    pub pos: Vec2,\n    open: bool,\n}\n\nimpl "@
        + name
        + " {\n    pub fn new(pos: Vec2) -> Self {\n        Self { pos, open: false }\n    }\n}\n\nimpl Openable for "@
        + name
        + " {\n    fn is_open(&self) -> bool { self.open }\n    fn toggle_open(&mut self) { self.open = !self.open; }\n}\n\n#[cfg(test)]\nmod tests {\n    use super::*;\n\n    #[test]\n    fn starts_closed() {\n        let x = "@
        + name
        + "::new(Vec2::new(0.0, 0.0));\n        assert!(!x.is_open());\n    }\n\n    #[test]\n    fn toggle_opens_and_closes() {\n        let mut x = "@
        + name
        + "::new(Vec2::new(0.0, 0.0));\n        x.toggle_open();\n        assert!(x.is_open());\n        x.toggle_open();\n        assert!(!x.is_open());\n    }\n}\n"@
}

pub(crate) fn simple_openable(name: &str, doc: &str) -> (s: String)
    ensures
        s@ == openable_text(name@, doc@),
{
    let mut s = String::from_str("//! ");
    s.append(doc);
    s.append("\n\nuse crate::space::Vec2;\nuse crate::traits::Openable;\n\n#[derive(Debug, Clone, Copy)]\npub struct ");
    s.append(name);
    s.append(" {\n    pub pos: Vec2,\n    open: bool,\n}\n\nimpl ");
    s.append(name);
    s.append(" {\n    pub fn new(pos: Vec2) -> Self {\n        Self { pos, open: false }\n    }\n}\n\nimpl Openable for ");
    s.append(name);
    s.append(" {\n    fn is_open(&self) -> bool { self.open }\n    fn toggle_open(&mut self) { self.open = !self.open; }\n}\n\n#[cfg(test)]\nmod tests {\n    use super::*;\n\n    #[test]\n    fn starts_closed() {\n        let x = ");
    s.append(name);
    s.append("::new(Vec2::new(0.0, 0.0));\n        assert!(!x.is_open());\n    }\n\n    #[test]\n    fn toggle_opens_and_closes() {\n        let mut x = ");
    s.append(name);
    s.append("::new(Vec2::new(0.0, 0.0));\n        x.toggle_open();\n        assert!(x.is_open());\n        x.toggle_open();\n        assert!(!x.is_open());\n    }\n}\n");
    s
}

/// Whether `t` occurs in `s` as a contiguous piece.
pub open spec fn contains_text(s: Seq<char>, t: Seq<char>) -> bool {
    exists|i: int| 0 <= i && i + t.len() <= s.len() && #[trigger] s.subrange(i, i + t.len()) == t
}

/// A generated faucet switches on and off: for every name, doc and flow
/// rate, its module carries the `Switchable` impl whose `is_on` reads the
/// `on` flag and whose `toggle` negates it.
pub proof fn lemma_faucet_toggle_negates(name: Seq<char>, doc: Seq<char>, flow_ml_per_sec: nat)
    ensures
        contains_text(
            faucet_text(name, doc, flow_ml_per_sec),
            "impl Switchable for "@ + name
                + " {\n    fn is_on(&self) -> bool { self.on }\n    fn toggle(&mut self) { self.on = !self.on; }\n}"@,
        ),
{
    let head = "impl Switchable for "@;
    let body = " {\n    fn is_on(&self) -> bool { self.on }\n    fn toggle(&mut self) { self.on = !self.on; }\n}"@;
    let l0 = ";\n\n    pub fn new(pos: Vec2) -> Self {\n        Self { pos, on: false, seconds_running: 0.0 }\n    }\n}\n\nimpl Switchable for "@;
    let l1 = " {\n    fn is_on(&self) -> bool { self.on }\n    fn toggle(&mut self) { self.on = !self.on; }\n}\n\nimpl LiquidSource for "@;
    reveal_strlit("impl Switchable for ");
    reveal_strlit(" {\n    fn is_on(&self) -> bool { self.on }\n    fn toggle(&mut self) { self.on = !self.on; }\n}");
    reveal_strlit(";\n\n    pub fn new(pos: Vec2) -> Self {\n        Self { pos, on: false, seconds_running: 0.0 }\n    }\n}\n\nimpl Switchable for ");
    reveal_strlit(" {\n    fn is_on(&self) -> bool { self.on }\n    fn toggle(&mut self) { self.on = !self.on; }\n}\n\nimpl LiquidSource for ");
    let a = "//! "@ + doc
        + "\n\nuse crate::space::Vec2;\nuse crate::traits::{Liquid, LiquidSource, Switchable, TimeDecaySeconds};\n\n#[derive(Debug, Clone, Copy)]\npub struct "@
        + name + " {\n    pub pos: Vec2,\n    on: bool,\n    pub seconds_running: f32,\n}\n\nimpl "@
        + name + " {\n    pub const FLOW_ML_PER_SEC: u32 = "@ + decimal(flow_ml_per_sec);
    let x = a + l0 + name + l1;
    let full = faucet_text(name, doc, flow_ml_per_sec);
    let t = head + name + body;
    let i = a.len() + l0.len() - head.len();
    assert(l0.subrange(l0.len() - head.len(), l0.len() as int) =~= head);
    assert(l1.subrange(0, body.len() as int) =~= body);
    assert(x.subrange(i, i + t.len()) =~= t);
    lemma_prefix_piece(x, full.subrange(x.len() as int, full.len() as int), i, i + t.len());
    assert(full =~= x + full.subrange(x.len() as int, full.len() as int));
    assert(full.subrange(i, i + t.len()) == t);
}

proof fn lemma_prefix_piece(p: Seq<char>, q: Seq<char>, i: int, j: int)
    requires
        0 <= i <= j <= p.len(),
    ensures
        (p + q).subrange(i, j) == p.subrange(i, j),
{
    assert((p + q).subrange(i, j) =~= p.subrange(i, j));
}

} // verus!
