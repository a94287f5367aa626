//! The commands and queries, exercised against the in-memory store.

use uow_core::active::ActiveTransaction;
use uow_core::customers::{execute_create_customer, execute_get_customer, CreateCustomer, GetCustomer};
use uow_core::entities::{Customer, Order, Product};
use uow_core::error::Error;
use uow_core::ids::{CustomerId, OrderId, ProductId};
use uow_core::orders::{
    execute_add_or_update_product, execute_create_order, execute_get_order,
    execute_get_order_summaries_for_customer, AddOrUpdateProduct, CreateOrder, GetOrder,
    GetOrderSummariesForCustomer,
};
use uow_core::products::{execute_create_product, CreateProduct};
use uow_core::store::TransactionStore;

#[test]
fn create_customer_err_if_already_exists() {
    let mut store = TransactionStore::new();

    let create = CreateCustomer { id: CustomerId(1) };

    execute_create_customer(create, &ActiveTransaction::none(), &mut store).unwrap();

    assert!(execute_create_customer(create, &ActiveTransaction::none(), &mut store).is_err());
}

#[test]
fn create_order_err_if_already_exists() {
    let mut store = TransactionStore::new();

    let customer_id = CustomerId(1);
    execute_create_customer(
        CreateCustomer { id: customer_id },
        &ActiveTransaction::none(),
        &mut store,
    )
    .unwrap();

    let create = CreateOrder { id: OrderId(1), customer_id };

    execute_create_order(create, &ActiveTransaction::none(), &mut store).unwrap();

    assert!(execute_create_order(create, &ActiveTransaction::none(), &mut store).is_err());
}

#[test]
fn add_item_if_not_in_order() {
    let mut store = TransactionStore::new();

    let order_id = OrderId(1);
    let product_id = ProductId(1);
    let quantity: u32 = 3;

    store
        .set_order(
            ActiveTransaction::none().get(),
            Order { id: order_id, customer_id: CustomerId(1), line_items: Vec::new() },
        )
        .unwrap();
    store
        .set_product(ActiveTransaction::none().get(), Product { id: product_id })
        .unwrap();

    let line_item_id = execute_add_or_update_product(
        AddOrUpdateProduct { id: order_id, product_id, quantity },
        &ActiveTransaction::none(),
        &mut store,
    )
    .unwrap();

    let line_item = store.get_line_item(order_id, line_item_id).unwrap();

    assert_eq!(quantity, line_item.quantity);
}

#[test]
fn update_quantity_if_in_order() {
    let mut store = TransactionStore::new();

    let order_id = OrderId(1);
    let product_id = ProductId(1);
    let line_item_id = store.fresh_line_item_id();
    let quantity: u32 = 3;

    let order = Order {
        id: order_id,
        customer_id: CustomerId(1),
        line_items: vec![uow_core::entities::LineItem { id: line_item_id, product_id, quantity: 1 }],
    };
    store.set_order(ActiveTransaction::none().get(), order).unwrap();
    store
        .set_product(ActiveTransaction::none().get(), Product { id: product_id })
        .unwrap();

    let updated_line_item_id = execute_add_or_update_product(
        AddOrUpdateProduct { id: order_id, product_id, quantity },
        &ActiveTransaction::none(),
        &mut store,
    )
    .unwrap();

    let line_item = store.get_line_item(order_id, line_item_id).unwrap();

    assert_eq!(line_item_id, updated_line_item_id);
    assert_eq!(quantity, line_item.quantity);
}

#[test]
fn create_order_rejects_unknown_customer() {
    let mut store = TransactionStore::new();

    let r = execute_create_order(
        CreateOrder { id: OrderId(1), customer_id: CustomerId(9) },
        &ActiveTransaction::none(),
        &mut store,
    );

    assert_eq!(r, Err(Error::BadInput));
    assert!(store.orders.is_empty());
}

#[test]
fn add_product_rejects_missing_order_and_missing_product() {
    let mut store = TransactionStore::new();

    let missing_order = execute_add_or_update_product(
        AddOrUpdateProduct { id: OrderId(5), product_id: ProductId(1), quantity: 1 },
        &ActiveTransaction::none(),
        &mut store,
    );
    assert_eq!(missing_order, Err(Error::BadInput));

    store
        .set_order(
            ActiveTransaction::none().get(),
            Order { id: OrderId(5), customer_id: CustomerId(1), line_items: Vec::new() },
        )
        .unwrap();
    let missing_product = execute_add_or_update_product(
        AddOrUpdateProduct { id: OrderId(5), product_id: ProductId(1), quantity: 1 },
        &ActiveTransaction::none(),
        &mut store,
    );
    assert_eq!(missing_product, Err(Error::BadInput));
}

#[test]
fn create_product_err_if_already_exists() {
    let mut store = TransactionStore::new();

    let create = CreateProduct { id: ProductId(2) };
    execute_create_product(create, &ActiveTransaction::none(), &mut store).unwrap();
    assert_eq!(
        execute_create_product(create, &ActiveTransaction::none(), &mut store),
        Err(Error::AlreadyExists)
    );
}

#[test]
fn set_line_item_reports_missing_order() {
    let mut store = TransactionStore::new();
    let id = store.fresh_line_item_id();
    let r = store.set_line_item(
        ActiveTransaction::none().get(),
        OrderId(1),
        uow_core::entities::LineItem { id, product_id: ProductId(1), quantity: 1 },
    );
    assert_eq!(r, Err(Error::NotFound));
}

#[test]
fn queries_read_back_what_commands_wrote() {
    let mut store = TransactionStore::new();
    let tx = ActiveTransaction::none();

    execute_create_customer(CreateCustomer { id: CustomerId(1) }, &tx, &mut store).unwrap();
    execute_create_order(
        CreateOrder { id: OrderId(10), customer_id: CustomerId(1) },
        &tx,
        &mut store,
    )
    .unwrap();
    execute_create_order(
        CreateOrder { id: OrderId(11), customer_id: CustomerId(1) },
        &tx,
        &mut store,
    )
    .unwrap();

    let customer = execute_get_customer(GetCustomer { id: CustomerId(1) }, &store).unwrap();
    assert_eq!(customer, Some(Customer { id: CustomerId(1) }));

    let order = execute_get_order(GetOrder { id: OrderId(10) }, &store).unwrap().unwrap();
    assert_eq!(order.id, OrderId(10));
    assert_eq!(order.customer_id, CustomerId(1));
    assert!(order.line_items.is_empty());

    let summaries = execute_get_order_summaries_for_customer(
        GetOrderSummariesForCustomer { id: CustomerId(1) },
        &store,
    )
    .unwrap();
    let ids: Vec<OrderId> = summaries.iter().map(|s| s.id).collect();
    assert_eq!(ids, vec![OrderId(10), OrderId(11)]);

    let none = execute_get_order_summaries_for_customer(
        GetOrderSummariesForCustomer { id: CustomerId(2) },
        &store,
    )
    .unwrap();
    assert!(none.is_empty());
}
