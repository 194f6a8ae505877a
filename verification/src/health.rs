//! The health document of a sidecar.

use crate::identity::SidecarIdentity;
use crate::json::{document_json, document_text, string_json, string_text};
use crate::text::append_text;
use vstd::prelude::*;

verus! {

#[derive(Clone, Debug)]
pub struct Health {
    pub ok: bool,
    pub service: &'static str,
    pub product: Option<serde_json::Value>,
}

/// The health of a sidecar that runs.
pub fn current(identity: SidecarIdentity, product: Option<serde_json::Value>) -> (health: Health)
    ensures
        health == (Health { ok: true, service: identity.service, product }),
{
    Health { ok: true, service: identity.service, product }
}

/// The JSON text of a flag.
pub open spec fn flag_text(flag: bool) -> Seq<char> {
    if flag {
        "true"@
    } else {
        "false"@
    }
}

pub fn flag_json(flag: bool) -> (text: &'static str)
    ensures
        text@ == flag_text(flag),
{
    if flag {
        "true"
    } else {
        "false"
    }
}

/// The JSON text of a health document, given the JSON texts of its members. It has a
/// product member only where there is one.
pub open spec fn health_members(
    ok: bool,
    service: Seq<char>,
    product: Option<Seq<char>>,
) -> Seq<char> {
    "{\"ok\":"@ + flag_text(ok) + ",\"service\":"@ + service + (match product {
        Some(product) => ",\"product\":"@ + product,
        None => Seq::empty(),
    }) + "}"@
}

/// Put a health document together from the JSON texts of its members.
pub fn health_json(ok: bool, service: &str, product: Option<&str>) -> (text: String)
    ensures
        text@ == health_members(ok, service@, json_member(product)),
{
    let text = append_text("{\"ok\":".to_owned(), flag_json(ok));
    let text = append_text(text, ",\"service\":");
    let text = append_text(text, service);
    let text = match product {
        Some(product) => {
            let text = append_text(text, ",\"product\":");
            append_text(text, product)
        },
        None => text,
    };
    let text = append_text(text, "}");
    assert(text@ =~= health_members(ok, service@, json_member(product)));
    text
}

/// What an optional JSON text says.
pub open spec fn json_member(member: Option<&str>) -> Option<Seq<char>> {
    match member {
        Some(text) => Some(text@),
        None => None,
    }
}

/// The JSON text of an optional document.
pub open spec fn product_text(product: Option<serde_json::Value>) -> Option<Seq<char>> {
    match product {
        Some(product) => Some(document_text(product)),
        None => None,
    }
}

impl Health {
    /// The document as compact JSON.
    pub open spec fn text(self) -> Seq<char> {
        health_members(self.ok, string_text(self.service@), product_text(self.product))
    }

    pub fn to_json(&self) -> (text: String)
        ensures
            text@ == self.text(),
    {
        let service = match string_json(self.service) {
            Ok(service) => service,
            Err(_) => return unwritable(),
        };
        match &self.product {
            Some(product) => match document_json(product) {
                Ok(nested) => health_json(self.ok, service.as_str(), Some(nested.as_str())),
                Err(_) => unwritable(),
            },
            None => health_json(self.ok, service.as_str(), None),
        }
    }
}

/// What is said where a document cannot be written.
pub fn unwritable() -> (text: String)
    ensures
        text@ == "{\"ok\":false}"@,
{
    "{\"ok\":false}".to_owned()
}

/// A health document says whether all is well and which service it is of, and has the product's
/// own document behind that where there is one, with nothing changed before it.
pub proof fn law_what_health_documents_say(service: Seq<char>, product: Seq<char>)
    ensures
        health_members(true, service, None) == "{\"ok\":true,\"service\":"@ + service + "}"@,
        health_members(false, service, None) == "{\"ok\":false,\"service\":"@ + service + "}"@,
        health_members(true, service, Some(product)) == "{\"ok\":true,\"service\":"@ + service
            + ",\"product\":"@ + product + "}"@,
        health_members(false, service, Some(product)) == "{\"ok\":false,\"service\":"@ + service
            + ",\"product\":"@ + product + "}"@,
{
    reveal_strlit("{\"ok\":");
    reveal_strlit("true");
    reveal_strlit("false");
    reveal_strlit(",\"service\":");
    reveal_strlit("{\"ok\":true,\"service\":");
    reveal_strlit("{\"ok\":false,\"service\":");
    assert("{\"ok\":"@ + "true"@ + ",\"service\":"@ =~= "{\"ok\":true,\"service\":"@);
    assert("{\"ok\":"@ + "false"@ + ",\"service\":"@ =~= "{\"ok\":false,\"service\":"@);
    assert(health_members(true, service, None) =~= "{\"ok\":true,\"service\":"@ + service + "}"@);
    assert(health_members(false, service, None) =~= "{\"ok\":false,\"service\":"@ + service
        + "}"@);
    assert(health_members(true, service, Some(product)) =~= "{\"ok\":true,\"service\":"@ + service
        + ",\"product\":"@ + product + "}"@);
    assert(health_members(false, service, Some(product)) =~= "{\"ok\":false,\"service\":"@
        + service + ",\"product\":"@ + product + "}"@);
}

/// The health of a service is good, in its name, with the product's own document handed on; a
/// document of the product is written as it is.
pub proof fn law_current_health(
    identity: SidecarIdentity,
    product: Option<serde_json::Value>,
    health: Health,
)
    requires
        call_ensures(current, (identity, product), health),
    ensures
        health.ok,
        health.service@ == identity.service@,
        health.product == product,
        product is None ==> health.text() == "{\"ok\":true,\"service\":"@ + string_text(
            identity.service@,
        ) + "}"@,
        product matches Some(document) ==> health.text() == "{\"ok\":true,\"service\":"@
            + string_text(identity.service@) + ",\"product\":"@ + document_text(document) + "}"@,
{
    law_what_health_documents_say(string_text(identity.service@), string_text(identity.service@));
    if let Some(document) = product {
        law_what_health_documents_say(string_text(identity.service@), document_text(document));
    }
}

} // verus!
