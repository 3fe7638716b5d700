//! Opaque string identifiers and display names issued by the daemon.
//!
//! Identifiers are stable and case-sensitive; equality is by raw string
//! value.  Display names are not guaranteed unique and may be absent from
//! the directory cache, in which case an identifier displays as itself.

use vstd::prelude::*;

verus! {

/// An opaque, stable, case-sensitive device identifier.
#[derive(Debug)]
pub struct DeviceID(pub String);

impl View for DeviceID {
    type V = Seq<char>;

    open spec fn view(&self) -> Seq<char> {
        self.0@
    }
}

impl DeviceID {
    pub fn new(raw: String) -> (r: Self)
        ensures
            r@ == raw@,
    {
        DeviceID(raw)
    }

    pub fn as_str(&self) -> (r: &str)
        ensures
            r@ == self@,
    {
        self.0.as_str()
    }

    /// Equality by raw string value.
    pub fn same(&self, other: &DeviceID) -> (r: bool)
        ensures
            r == (self@ == other@),
    {
        self.0 == other.0
    }
}

impl Clone for DeviceID {
    fn clone(&self) -> (r: Self)
        ensures
            r@ == self@,
    {
        DeviceID(self.0.clone())
    }
}

/// A device's display name; not guaranteed unique.
#[derive(Debug)]
pub struct DeviceName(pub String);

impl View for DeviceName {
    type V = Seq<char>;

    open spec fn view(&self) -> Seq<char> {
        self.0@
    }
}

impl DeviceName {
    pub fn new(raw: String) -> (r: Self)
        ensures
            r@ == raw@,
    {
        DeviceName(raw)
    }

    pub fn as_str(&self) -> (r: &str)
        ensures
            r@ == self@,
    {
        self.0.as_str()
    }
}

impl Clone for DeviceName {
    fn clone(&self) -> (r: Self)
        ensures
            r@ == self@,
    {
        DeviceName(self.0.clone())
    }
}

/// An opaque, stable, case-sensitive folder identifier.
#[derive(Debug)]
pub struct FolderID(pub String);

impl View for FolderID {
    type V = Seq<char>;

    open spec fn view(&self) -> Seq<char> {
        self.0@
    }
}

impl FolderID {
    pub fn new(raw: String) -> (r: Self)
        ensures
            r@ == raw@,
    {
        FolderID(raw)
    }

    pub fn as_str(&self) -> (r: &str)
        ensures
            r@ == self@,
    {
        self.0.as_str()
    }

    /// Equality by raw string value.
    pub fn same(&self, other: &FolderID) -> (r: bool)
        ensures
            r == (self@ == other@),
    {
        self.0 == other.0
    }
}

impl Clone for FolderID {
    fn clone(&self) -> (r: Self)
        ensures
            r@ == self@,
    {
        FolderID(self.0.clone())
    }
}

/// A folder's display label; not guaranteed unique.
#[derive(Debug)]
pub struct FolderName(pub String);

impl View for FolderName {
    type V = Seq<char>;

    open spec fn view(&self) -> Seq<char> {
        self.0@
    }
}

impl FolderName {
    pub fn new(raw: String) -> (r: Self)
        ensures
            r@ == raw@,
    {
        FolderName(raw)
    }

    pub fn as_str(&self) -> (r: &str)
        ensures
            r@ == self@,
    {
        self.0.as_str()
    }
}

impl Clone for FolderName {
    fn clone(&self) -> (r: Self)
        ensures
            r@ == self@,
    {
        FolderName(self.0.clone())
    }
}

} // verus!
