//! Shared domain values: city identifiers, addresses, waste fractions and
//! pickup events.

use crate::date::Date;
use vstd::prelude::*;

verus! {

/// Built-in cities supported by the application.
#[derive(Debug, Clone, Copy)]
pub enum Cities {
    /// Aachen, Germany.
    Aachen,
    /// Cologne, Germany.
    Cologne,
    /// Nuremberg, Germany.
    Nuremberg,
}

impl Cities {
    /// The stable slug that names this city in registry lookups.
    pub open spec fn slug_spec(self) -> Seq<char> {
        match self {
            Cities::Aachen => "aachen"@,
            Cities::Cologne => "cologne"@,
            Cities::Nuremberg => "nuremberg"@,
        }
    }

    /// Slug naming the city, e.g. for display or as a lookup key.
    pub fn slug(&self) -> (s: &'static str)
        ensures
            s@ == self.slug_spec(),
    {
        match self {
            Cities::Aachen => "aachen",
            Cities::Cologne => "cologne",
            Cities::Nuremberg => "nuremberg",
        }
    }

    /// City identifier carrying this city's slug.
    pub fn id(&self) -> (r: CityId)
        ensures
            r@ == self.slug_spec(),
    {
        CityId(self.slug().to_owned())
    }
}

/// Identifier for a city known to tonneli.
#[derive(Debug, Clone, PartialEq, Eq, Hash)]
pub struct CityId(pub String);

impl View for CityId {
    type V = Seq<char>;

    open spec fn view(&self) -> Seq<char> {
        self.0@
    }
}

/// Metadata describing a city and its human-friendly name.
#[derive(Debug, Clone)]
pub struct CityMeta {
    /// Unique identifier.
    pub id: CityId,
    /// Localized display name.
    pub name: String,
}

/// Mathematical image of a [`CityMeta`].
pub ghost struct CityMetaView {
    /// Identifier slug.
    pub id: Seq<char>,
    /// Display name.
    pub name: Seq<char>,
}

impl View for CityMeta {
    type V = CityMetaView;

    open spec fn view(&self) -> CityMetaView {
        CityMetaView { id: self.id@, name: self.name@ }
    }
}

/// Identifier for a concrete address, meaningful only to the provider that
/// issued it.
#[derive(Debug, Clone, PartialEq, Eq, Hash)]
pub struct AddressId(pub String);

impl View for AddressId {
    type V = Seq<char>;

    open spec fn view(&self) -> Seq<char> {
        self.0@
    }
}

/// Address returned from a provider search.
#[derive(Debug, Clone)]
pub struct Address {
    /// Unique identifier used by a provider when requesting schedules.
    pub id: AddressId,
    /// City the address belongs to.
    pub city: CityId,
    /// Human-friendly label combining street and house number.
    pub label: String,
    /// Street name.
    pub street: String,
    /// House number including additions such as "A".
    pub house_number: String,
}

/// Mathematical image of an [`Address`].
pub ghost struct AddressView {
    /// Identifier, in the issuing provider's private encoding.
    pub id: Seq<char>,
    /// Slug of the owning city.
    pub city: Seq<char>,
    /// Display label.
    pub label: Seq<char>,
    /// Street name.
    pub street: Seq<char>,
    /// House number.
    pub house_number: Seq<char>,
}

impl View for Address {
    type V = AddressView;

    open spec fn view(&self) -> AddressView {
        AddressView {
            id: self.id@,
            city: self.city@,
            label: self.label@,
            street: self.street@,
            house_number: self.house_number@,
        }
    }
}

/// Waste fractions that can be collected.
#[derive(Debug, Clone, PartialEq, Eq)]
pub enum Fraction {
    /// Residual/gray bin.
    Residual,
    /// Organic waste.
    Organic,
    /// Paper and cardboard.
    Paper,
    /// Light packaging or plastics.
    Plastic,
    /// Glass collection.
    Glass,
    /// Metal scrap.
    Metal,
    /// Provider-specific additional fraction, keeping the backend's label.
    Other(String),
}

/// Mathematical image of a [`Fraction`].
pub ghost enum FractionView {
    /// Residual/gray bin.
    Residual,
    /// Organic waste.
    Organic,
    /// Paper and cardboard.
    Paper,
    /// Light packaging or plastics.
    Plastic,
    /// Glass collection.
    Glass,
    /// Metal scrap.
    Metal,
    /// Backend-specific fraction label.
    Other(Seq<char>),
}

impl View for Fraction {
    type V = FractionView;

    open spec fn view(&self) -> FractionView {
        match self {
            Fraction::Residual => FractionView::Residual,
            Fraction::Organic => FractionView::Organic,
            Fraction::Paper => FractionView::Paper,
            Fraction::Plastic => FractionView::Plastic,
            Fraction::Glass => FractionView::Glass,
            Fraction::Metal => FractionView::Metal,
            Fraction::Other(s) => FractionView::Other(s@),
        }
    }
}

/// Scheduled pickup for a specific day.
#[derive(Debug, Clone, PartialEq, Eq)]
pub struct PickupEvent {
    /// Date of the pickup.
    pub date: Date,
    /// Type of waste collected.
    pub fraction: Fraction,
    /// Optional provider note describing the pickup.
    pub note: Option<String>,
}

/// Mathematical image of a [`PickupEvent`].
pub ghost struct PickupEventView {
    /// Date of the pickup.
    pub date: Date,
    /// Collected fraction.
    pub fraction: FractionView,
    /// Provider note, if any.
    pub note: Option<Seq<char>>,
}

impl View for PickupEvent {
    type V = PickupEventView;

    open spec fn view(&self) -> PickupEventView {
        PickupEventView {
            date: self.date,
            fraction: self.fraction@,
            note: match self.note {
                Option::Some(s) => Option::Some(s@),
                Option::None => Option::None,
            },
        }
    }
}

/// The views of a sequence of addresses.
pub open spec fn addresses_view(s: Seq<Address>) -> Seq<AddressView> {
    s.map_values(|a: Address| a@)
}

/// The views of a sequence of pickup events.
pub open spec fn events_view(s: Seq<PickupEvent>) -> Seq<PickupEventView> {
    s.map_values(|e: PickupEvent| e@)
}

} // verus!
