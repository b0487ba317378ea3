use price_store::handler::{handle, Request, Response};
use price_store::store::{Record, Store};

fn create_with_price(store: &mut Store, price: u64) -> Record {
    match handle(store, Request::CreatePrice { price }) {
        Response::OkRecord(r) => r,
        other => panic!("create did not return a record: {:?}", other),
    }
}

#[test]
fn test_get_prices_empty() {
    let mut store = Store::new();
    let resp = handle(&mut store, Request::ListPrices);
    assert_eq!(resp.status_code(), 200);
    assert_eq!(resp, Response::OkRecords(vec![]));
}

#[test]
fn test_get_prices_populated() {
    let mut store = Store::new();
    let rec = create_with_price(&mut store, 100);
    let resp = handle(&mut store, Request::ListPrices);
    assert_eq!(resp.status_code(), 200);
    assert_eq!(resp, Response::OkRecords(vec![rec]));
}

#[test]
fn test_create_price() {
    let mut store = Store::new();
    let resp = handle(&mut store, Request::CreatePrice { price: 100 });
    let rec = match &resp {
        Response::OkRecord(r) => *r,
        other => panic!("create did not return a record: {:?}", other),
    };
    assert_eq!(resp.status_code(), 200);
    let listed = store.list();
    assert!(listed.iter().any(|p| p.id == rec.id));
    assert_eq!(listed.len(), 1);
    assert_eq!(listed[0].price, 100);
}

#[test]
fn test_get_price_existent() {
    let mut store = Store::new();
    let rec = create_with_price(&mut store, 3000);
    let resp = handle(&mut store, Request::GetPrice { id: rec.id });
    assert_eq!(resp.status_code(), 200);
    assert_eq!(
        resp,
        Response::OkRecord(Record {
            id: rec.id,
            price: 3000
        })
    );
}

#[test]
fn test_get_price_nonexistent() {
    let id = uuid::Uuid::new_v4().as_u128();
    let mut store = Store::new();
    let resp = handle(&mut store, Request::GetPrice { id });
    assert_eq!(resp.status_code(), 404);
    assert_eq!(resp, Response::NotFound);
}

#[test]
fn test_update_price_existent() {
    let mut store = Store::new();
    let rec = create_with_price(&mut store, 4000);
    let resp = handle(
        &mut store,
        Request::UpdatePrice {
            id: rec.id,
            price: 5000,
        },
    );
    assert_eq!(resp.status_code(), 200);
    assert_eq!(
        resp,
        Response::OkRecord(Record {
            id: rec.id,
            price: 5000
        })
    );
}

#[test]
fn test_update_price_nonexistent() {
    let id = uuid::Uuid::new_v4().as_u128();
    let mut store = Store::new();
    let resp = handle(&mut store, Request::UpdatePrice { id, price: 6000 });
    assert_eq!(resp.status_code(), 404);
    assert_eq!(resp, Response::NotFound);
}

#[test]
fn test_delete_price_existent() {
    let mut store = Store::new();
    let rec = create_with_price(&mut store, 7000);
    let resp = handle(&mut store, Request::DeletePrice { id: rec.id });
    assert_eq!(resp.status_code(), 200);
    assert_eq!(resp, Response::OkEmpty);
    assert_eq!(store.list().len(), 0);
}

#[test]
fn test_delete_price_nonexistent() {
    let id = uuid::Uuid::new_v4().as_u128();
    let mut store = Store::new();
    let resp = handle(&mut store, Request::DeletePrice { id });
    assert_eq!(resp.status_code(), 404);
    assert_eq!(resp, Response::NotFound);
}

#[test]
fn test_full_lifecycle_scenario() {
    let mut store = Store::new();

    let created = handle(&mut store, Request::CreatePrice { price: 100 });
    assert_eq!(created.status_code(), 200);
    let rec = match &created {
        Response::OkRecord(r) => *r,
        other => panic!("create did not return a record: {:?}", other),
    };
    assert_eq!(rec.price, 100);

    let listed = handle(&mut store, Request::ListPrices);
    assert_eq!(listed.status_code(), 200);
    assert_eq!(listed, Response::OkRecords(vec![rec]));

    let updated = handle(
        &mut store,
        Request::UpdatePrice {
            id: rec.id,
            price: 5000,
        },
    );
    assert_eq!(updated.status_code(), 200);
    assert_eq!(
        updated,
        Response::OkRecord(Record {
            id: rec.id,
            price: 5000
        })
    );

    let deleted = handle(&mut store, Request::DeletePrice { id: rec.id });
    assert_eq!(deleted.status_code(), 200);
    assert_eq!(deleted, Response::OkEmpty);

    let got = handle(&mut store, Request::GetPrice { id: rec.id });
    assert_eq!(got.status_code(), 404);
    assert_eq!(got, Response::NotFound);
}
