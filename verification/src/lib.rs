use vstd::prelude::*;

pub mod config;
pub mod persist;
pub mod wizard;

verus! {

#[verifier::external_type_specification]
#[verifier::external_body]
pub struct ExCatalog(gettext::Catalog);

#[verifier::external_type_specification]
#[verifier::external_body]
pub struct ExGettextError(gettext::Error);

/// The singular translations a gettext catalog holds, as a map from
/// message id to translated text.
pub uninterp spec fn catalog_entries(cat: gettext::Catalog) -> Map<Seq<char>, Seq<char>>;

/// What a lookup in a catalog yields: the entry under `msg`, or `msg`
/// itself when there is none.
pub open spec fn translated(entries: Map<Seq<char>, Seq<char>>, msg: Seq<char>) -> Seq<char> {
    if entries.contains_key(msg) {
        entries[msg]
    } else {
        msg
    }
}

/// Relies on gettext's `Catalog::gettext`: it returns the catalog's
/// singular translation of `msg_id`, or `msg_id` itself when the
/// catalog has none.
pub assume_specification<'a>[ gettext::Catalog::gettext ](
    cat: &'a gettext::Catalog,
    msg_id: &'a str,
) -> (r: &'a str)
    ensures
        r@ == translated(catalog_entries(*cat), msg_id@),
;

/// Total translation lookup: with a loaded catalog the catalog
/// decides, without one the message is returned unchanged; it never
/// fails.
pub fn translate(cat: &Result<gettext::Catalog, gettext::Error>, msg: &str) -> (r: String)
    ensures
        match cat {
            Ok(c) => r@ == translated(catalog_entries(*c), msg@),
            Err(_) => r@ == msg@,
        },
{
    match cat {
        Ok(c) => c.gettext(msg).to_owned(),
        Err(_) => msg.to_owned(),
    }
}

} // verus!
