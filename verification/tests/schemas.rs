use mve_transport::schema::{
    Binding, Capture, Generics, Id, Item, Method, Product, Receiver, Type, TypePosition, Variant,
};

fn position(n: u32) -> TypePosition {
    TypePosition::Generic(n)
}

#[test]
fn items_are_compared_by_what_they_hold() {
    let product = Product {
        bindings: vec![Binding { name: Some("left".to_string()), ty: position(0) }],
    };
    let sum = Item {
        content: Type::Sum(vec![Variant { name: None, ty: product.clone() }]),
    };
    assert_eq!(sum, sum.clone());
    assert_ne!(sum, Item { content: Type::Product(product) });
    assert_ne!(sum, Item { content: Type::Opaque });
}

#[test]
fn functions_and_objects_hold_positions() {
    let function = Type::Function {
        capture: Capture::Once,
        arguments: vec![position(1), TypePosition::Concrete(Id([7; 32]))],
        ret: None,
    };
    let object = Type::Object {
        methods: vec![Method {
            receiver: Receiver::Ref,
            arguments: vec![],
            ret: Some(TypePosition::Concrete(Id([7; 32]))),
        }],
    };
    assert_eq!(function, function.clone());
    assert_ne!(function, object);
    let generics = Generics { base: [1; 32], parameters: vec![(None, Id([2; 32]))] };
    assert_eq!(generics, generics.clone());
}
