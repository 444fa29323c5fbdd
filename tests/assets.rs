use penumbra_stake_core::genesis::{Allocation, GenesisBuilder, GenesisError};
use penumbra_stake_core::params::ChainParams;
use penumbra_stake_core::registry::{known_assets, AssetFamily, Denom};

fn units(d: &Denom) -> Vec<(u8, String)> {
    d.units.iter().map(|u| (u.exponent, u.denom.clone())).collect()
}

#[test]
fn parse_known_base_denomination() {
    let reg = known_assets();
    let d = reg.parse_denom("upenumbra").unwrap();
    assert_eq!(d.base_denom, "upenumbra");
    assert_eq!(units(&d), vec![(6, "penumbra".to_string()), (3, "mpenumbra".to_string())]);
}

#[test]
fn parse_delegation_denomination() {
    let reg = known_assets();
    let d = reg.parse_denom("udelegation_penumbravalid1abc").unwrap();
    assert_eq!(d.base_denom, "udelegation_penumbravalid1abc");
    assert_eq!(
        units(&d),
        vec![(6, "delegation_penumbravalid1abc".to_string()), (3, "mdelegation_penumbravalid1abc".to_string())]
    );
}

#[test]
fn parse_display_unit_as_denomination_gives_none() {
    let reg = known_assets();
    assert!(reg.parse_denom("penumbra").is_none());
    assert!(reg.parse_denom("mdelegation_penumbravalid1abc").is_none());
}

#[test]
fn parse_unknown_denomination_is_opaque() {
    let reg = known_assets();
    let d = reg.parse_denom("gm").unwrap();
    assert_eq!(d.base_denom, "gm");
    assert!(d.units.is_empty());
    // the delegation pattern needs a bech32 identity
    let e = reg.parse_denom("udelegation_").unwrap();
    assert_eq!(e.base_denom, "udelegation_");
    assert!(e.units.is_empty());
}

#[test]
fn parse_denom_is_deterministic() {
    let reg = known_assets();
    for s in ["upenumbra", "udelegation_penumbravalid1xyz", "gm"] {
        let a = reg.parse_denom(s).unwrap();
        let b = reg.parse_denom(s).unwrap();
        assert_eq!(a.base_denom, b.base_denom);
        assert_eq!(units(&a), units(&b));
    }
}

#[test]
fn parse_units() {
    let reg = known_assets();
    let u = reg.parse_unit("mpenumbra");
    assert_eq!(u.unit_index, 2);
    assert_eq!(u.denom.base_denom, "upenumbra");
    let d = reg.parse_unit("delegation_penumbravalid1q");
    assert_eq!(d.unit_index, 1);
    assert_eq!(d.denom.base_denom, "udelegation_penumbravalid1q");
    let b = reg.parse_unit("upenumbra");
    assert_eq!(b.unit_index, 0);
    assert_eq!(b.denom.units.len(), 2);
    let o = reg.parse_unit("gm");
    assert_eq!(o.unit_index, 0);
    assert_eq!(o.denom.base_denom, "gm");
}

#[test]
fn registry_families() {
    let reg = known_assets();
    assert_eq!(reg.assets.len(), 2);
    assert_eq!(reg.assets[0].family, AssetFamily::Staking);
    assert_eq!(reg.assets[1].family, AssetFamily::Delegation);
    assert_eq!(reg.assets[1].unit_patterns.len(), 2);
}

#[test]
fn chain_params_defaults() {
    let p = ChainParams::default();
    assert_eq!(p.chain_id, "");
    assert_eq!(p.epoch_duration, 8640);
    assert_eq!(p.unbonding_epochs, 30);
    assert_eq!(p.active_validator_limit, 10);
    assert_eq!(p.slashing_penalty, 1000);
    assert!(!p.ibc_enabled);
    assert!(!p.inbound_ics20_transfers_enabled);
    assert!(!p.outbound_ics20_transfers_enabled);
}

#[test]
fn genesis_allocation_and_transaction() {
    let reg = known_assets();
    let ok = Allocation { amount: 100, denom: "upenumbra".to_string(), address: vec![1, 2] };
    let note = ok.note(&reg).unwrap();
    assert_eq!(note.amount, 100);
    assert_eq!(note.denom.base_denom, "upenumbra");
    assert_eq!(note.address, vec![1, 2]);
    let bad = Allocation { amount: 1, denom: "penumbra".to_string(), address: vec![] };
    assert_eq!(bad.note(&reg).err(), Some(GenesisError::InvalidDenomination));
    let mut builder = GenesisBuilder::new();
    builder.add_output(note);
    assert_eq!(GenesisBuilder::new().finalize().err(), Some(GenesisError::NoChainID));
    let tx = builder.set_chain_id("penumbra-test".to_string()).finalize().unwrap();
    assert_eq!(tx.chain_id, "penumbra-test");
    assert_eq!(tx.outputs.len(), 1);
}
