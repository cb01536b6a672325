use akkuea_contracts::distribution::{Contract, DistributionError};

fn setup() -> (Contract, String) {
    let mut contract = Contract::new();
    let admin = String::from("GADMIN");
    contract.initialize(admin.clone()).unwrap();
    (contract, admin)
}

fn or_panic<T>(r: Result<T, DistributionError>) -> T {
    match r {
        Ok(v) => v,
        Err(e) => panic!("{}", e.message()),
    }
}

#[test]
fn test_happy_path_proportional_distribution() {
    let (mut client, admin) = setup();
    let holder_a = String::from("GHOLDERA");
    let holder_b = String::from("GHOLDERB");

    or_panic(client.register_property(admin.clone(), 1, 100));
    or_panic(client.register_shareholder(admin.clone(), 1, holder_a.clone(), 60));
    or_panic(client.register_shareholder(admin.clone(), 1, holder_b.clone(), 40));

    let dist_id = or_panic(client.create_distribution(admin.clone(), 1, 1000, 202601));

    let amount_a = or_panic(client.claim_distribution(holder_a, 1, dist_id));
    let amount_b = or_panic(client.claim_distribution(holder_b, 1, dist_id));

    assert_eq!(amount_a, 600);
    assert_eq!(amount_b, 400);

    let dist = client.get_distribution(1, dist_id).unwrap();
    assert_eq!(dist.claimed_amount, 1000);
}

#[test]
fn test_get_claimable() {
    let (mut client, admin) = setup();
    let holder = String::from("GHOLDER");

    or_panic(client.register_property(admin.clone(), 1, 100));
    or_panic(client.register_shareholder(admin.clone(), 1, holder.clone(), 25));
    or_panic(client.create_distribution(admin.clone(), 1, 2000, 202601));

    let claimable = or_panic(client.get_claimable(holder.clone(), 1, 0));
    assert_eq!(claimable, 500);

    or_panic(client.claim_distribution(holder.clone(), 1, 0));

    let claimable_after = or_panic(client.get_claimable(holder, 1, 0));
    assert_eq!(claimable_after, 0);
}

#[test]
#[should_panic(expected = "already claimed")]
fn test_double_claim_panics() {
    let (mut client, admin) = setup();
    let holder = String::from("GHOLDER");

    or_panic(client.register_property(admin.clone(), 1, 100));
    or_panic(client.register_shareholder(admin.clone(), 1, holder.clone(), 50));
    or_panic(client.create_distribution(admin.clone(), 1, 1000, 202601));

    or_panic(client.claim_distribution(holder.clone(), 1, 0));
    or_panic(client.claim_distribution(holder, 1, 0));
}

#[test]
#[should_panic(expected = "no shares registered")]
fn test_zero_shares_claim_panics() {
    let (mut client, admin) = setup();
    let holder = String::from("GHOLDER");

    or_panic(client.register_property(admin.clone(), 1, 100));
    or_panic(client.create_distribution(admin.clone(), 1, 1000, 202601));

    or_panic(client.claim_distribution(holder, 1, 0));
}

#[test]
fn test_multiple_distributions() {
    let (mut client, admin) = setup();
    let holder = String::from("GHOLDER");

    or_panic(client.register_property(admin.clone(), 1, 100));
    or_panic(client.register_shareholder(admin.clone(), 1, holder.clone(), 50));

    let dist_0 = or_panic(client.create_distribution(admin.clone(), 1, 1000, 202601));
    let dist_1 = or_panic(client.create_distribution(admin.clone(), 1, 2000, 202602));

    assert_eq!(dist_0, 0);
    assert_eq!(dist_1, 1);

    let amount_0 = or_panic(client.claim_distribution(holder.clone(), 1, dist_0));
    let amount_1 = or_panic(client.claim_distribution(holder, 1, dist_1));

    assert_eq!(amount_0, 500);
    assert_eq!(amount_1, 1000);
}

#[test]
#[should_panic(expected = "property not found")]
fn test_nonexistent_property_panics() {
    let (mut client, admin) = setup();
    let holder = String::from("GHOLDER");

    or_panic(client.register_shareholder(admin, 999, holder, 50));
}

#[test]
fn initialize_twice_is_refused() {
    let (mut client, _admin) = setup();
    assert_eq!(
        client.initialize(String::from("GOTHER")),
        Err(DistributionError::AlreadyInitialized)
    );
}

#[test]
fn operations_before_initialize_are_refused() {
    let mut client = Contract::new();
    assert_eq!(
        client.register_property(String::from("GADMIN"), 1, 100),
        Err(DistributionError::NotInitialized)
    );
}

#[test]
fn non_admin_is_refused_and_state_is_kept() {
    let (mut client, admin) = setup();
    or_panic(client.register_property(admin.clone(), 1, 100));
    let intruder = String::from("GINTRUDER");
    assert_eq!(
        client.register_property(intruder.clone(), 2, 10),
        Err(DistributionError::NotAdmin)
    );
    assert_eq!(
        client.register_shareholder(intruder.clone(), 1, intruder.clone(), 10),
        Err(DistributionError::NotAdmin)
    );
    assert_eq!(
        client.create_distribution(intruder, 1, 5, 1),
        Err(DistributionError::NotAdmin)
    );
    assert_eq!(client.create_distribution(admin, 1, 5, 1), Ok(0));
}

#[test]
fn create_distribution_for_unknown_property_is_refused() {
    let (mut client, admin) = setup();
    assert_eq!(
        client.create_distribution(admin, 7, 1000, 1),
        Err(DistributionError::PropertyNotFound)
    );
}

#[test]
fn claim_of_missing_distribution_is_refused() {
    let (mut client, admin) = setup();
    let holder = String::from("GHOLDER");
    or_panic(client.register_property(admin.clone(), 1, 100));
    or_panic(client.register_shareholder(admin, 1, holder.clone(), 10));
    assert_eq!(
        client.claim_distribution(holder.clone(), 1, 3),
        Err(DistributionError::DistributionNotFound)
    );
    assert_eq!(client.get_claimable(holder, 1, 3), Ok(0));
    assert!(client.get_distribution(1, 3).is_none());
}

#[test]
fn zero_total_shares_is_a_division_by_zero() {
    let (mut client, admin) = setup();
    let holder = String::from("GHOLDER");
    or_panic(client.register_property(admin.clone(), 1, 0));
    or_panic(client.register_shareholder(admin.clone(), 1, holder.clone(), 10));
    or_panic(client.create_distribution(admin, 1, 1000, 1));
    assert_eq!(
        client.claim_distribution(holder.clone(), 1, 0),
        Err(DistributionError::DivisionByZero)
    );
    assert_eq!(
        client.get_claimable(holder, 1, 0),
        Err(DistributionError::DivisionByZero)
    );
}

#[test]
fn overflowing_share_product_is_refused() {
    let (mut client, admin) = setup();
    let holder = String::from("GHOLDER");
    or_panic(client.register_property(admin.clone(), 1, 2));
    or_panic(client.register_shareholder(admin.clone(), 1, holder.clone(), 4));
    or_panic(client.create_distribution(admin, 1, i128::MAX / 2, 1));
    assert_eq!(
        client.claim_distribution(holder, 1, 0),
        Err(DistributionError::ArithmeticOverflow)
    );
}

#[test]
fn negative_amounts_round_toward_zero() {
    let (mut client, admin) = setup();
    let holder = String::from("GHOLDER");
    or_panic(client.register_property(admin.clone(), 1, 3));
    or_panic(client.register_shareholder(admin.clone(), 1, holder.clone(), 1));
    or_panic(client.create_distribution(admin, 1, -10, 1));
    assert_eq!(client.claim_distribution(holder, 1, 0), Ok(-3));
}

#[test]
fn claims_of_other_holders_are_independent() {
    let (mut client, admin) = setup();
    let a = String::from("GA");
    let b = String::from("GB");
    or_panic(client.register_property(admin.clone(), 1, 3));
    or_panic(client.register_shareholder(admin.clone(), 1, a.clone(), 1));
    or_panic(client.register_shareholder(admin.clone(), 1, b.clone(), 2));
    or_panic(client.create_distribution(admin, 1, 100, 1));
    assert_eq!(client.get_claimable(b.clone(), 1, 0), Ok(66));
    assert_eq!(client.claim_distribution(a, 1, 0), Ok(33));
    assert_eq!(client.get_claimable(b.clone(), 1, 0), Ok(66));
    assert_eq!(client.claim_distribution(b, 1, 0), Ok(66));
    assert_eq!(client.get_distribution(1, 0).unwrap().claimed_amount, 99);
}

#[test]
fn re_registering_a_property_restarts_ids() {
    let (mut client, admin) = setup();
    or_panic(client.register_property(admin.clone(), 1, 10));
    assert_eq!(client.create_distribution(admin.clone(), 1, 1, 1), Ok(0));
    assert_eq!(client.create_distribution(admin.clone(), 1, 1, 1), Ok(1));
    or_panic(client.register_property(admin.clone(), 1, 20));
    assert_eq!(client.create_distribution(admin.clone(), 1, 7, 2), Ok(0));
    let d = client.get_distribution(1, 0).unwrap();
    assert_eq!(d.total_amount, 7);
    assert_eq!(d.total_shares, 20);
    assert_eq!(d.claimed_amount, 0);
    assert_eq!(d.period, 2);
}

#[test]
fn error_messages() {
    assert_eq!(DistributionError::AlreadyClaimed.message(), "already claimed");
    assert_eq!(DistributionError::NotAdmin.message(), "not admin");
    assert_eq!(DistributionError::DistributionNotFound.message(), "distribution not found");
}
