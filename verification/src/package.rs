//! The package records handed to the front end.
use vstd::prelude::*;

verus! {

/// A search result.
#[derive(Clone, Debug, PartialEq, Eq)]
pub struct PackageHit {
    pub name: String,
    pub id: String,
    pub version: String,
    pub source: String,
}

pub struct HitView {
    pub name: Seq<char>,
    pub id: Seq<char>,
    pub version: Seq<char>,
    pub source: Seq<char>,
}

impl View for PackageHit {
    type V = HitView;

    open spec fn view(&self) -> HitView {
        HitView { name: self.name@, id: self.id@, version: self.version@, source: self.source@ }
    }
}

pub open spec fn hits_view(v: Seq<PackageHit>) -> Seq<HitView> {
    v.map_values(|h: PackageHit| h@)
}

/// An installed package.
#[derive(Clone, Debug, PartialEq, Eq)]
pub struct InstalledPackage {
    pub name: String,
    pub id: String,
    pub version: String,
    /// The version an upgrade would install; empty when there is none.
    pub available: String,
    pub has_update: bool,
    /// An Add/Remove Programs registry entry, which winget cannot manage.
    pub is_arp: bool,
}

pub struct InstalledView {
    pub name: Seq<char>,
    pub id: Seq<char>,
    pub version: Seq<char>,
    pub available: Seq<char>,
    pub has_update: bool,
    pub is_arp: bool,
}

impl View for InstalledPackage {
    type V = InstalledView;

    open spec fn view(&self) -> InstalledView {
        InstalledView {
            name: self.name@,
            id: self.id@,
            version: self.version@,
            available: self.available@,
            has_update: self.has_update,
            is_arp: self.is_arp,
        }
    }
}

pub open spec fn installed_view(v: Seq<InstalledPackage>) -> Seq<InstalledView> {
    v.map_values(|p: InstalledPackage| p@)
}

} // verus!
