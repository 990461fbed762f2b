//! The claims model: ordering, the public/private partition, rendering.

use zkpod::claims::{delivery_claims, CustomClaims};

#[test]
fn empty_claim_set_discloses_nothing() {
    let c = CustomClaims::new();
    assert_eq!(c.len(), 0);
    assert_eq!(c.public_claims(), "");
    assert_eq!(c.pretty_print(), "");
    assert_eq!(c.get_public_claims().len(), 0);
}

#[test]
fn public_claims_keeps_insertion_order_and_drops_private() {
    let mut c = CustomClaims::new();
    c.add("a".to_string(), "1".to_string(), false);
    c.add("secret".to_string(), "x".to_string(), true);
    c.add("b".to_string(), "2".to_string(), false);
    assert_eq!(c.public_claims(), "a=1,b=2");
    let public = c.get_public_claims();
    assert_eq!(public.len(), 2);
    assert_eq!(public.public_claims(), "a=1,b=2");
}

#[test]
fn all_private_claims_disclose_nothing() {
    let mut c = CustomClaims::new();
    c.add("k1".to_string(), "v1".to_string(), true);
    c.add("k2".to_string(), "v2".to_string(), true);
    assert_eq!(c.public_claims(), "");
    assert_eq!(c.get_public_claims().len(), 0);
}

#[test]
fn duplicate_keys_are_kept_in_order() {
    let mut c = CustomClaims::new();
    c.add("k".to_string(), "1".to_string(), false);
    c.add("k".to_string(), "2".to_string(), false);
    assert_eq!(c.public_claims(), "k=1,k=2");
    assert_eq!(c.len(), 2);
}

#[test]
fn pretty_print_renders_every_claim() {
    let mut c = CustomClaims::new();
    c.add("who".to_string(), "me".to_string(), false);
    c.add("cost".to_string(), "4000.00".to_string(), true);
    assert_eq!(c.pretty_print(), "who = me\ncost = 4000.00\n");
}

#[test]
fn delivery_claims_partition() {
    let c = delivery_claims(
        "r-17".to_string(),
        "Coffee Chain 1".to_string(),
        "Coffee Supplier".to_string(),
        "raw coffee beans".to_string(),
        "1000".to_string(),
        "4000.00".to_string(),
    );
    assert_eq!(c.len(), 6);
    assert_eq!(
        c.public_claims(),
        "reference=r-17,subject_id=Coffee Supplier,product=raw coffee beans,quantity=1000"
    );
    let public = c.get_public_claims();
    assert_eq!(public.len(), 4);
}
