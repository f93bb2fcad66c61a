use lunarity_contract::ast::{
    ContractDefinition, ContractPart, EventDefinition, IndexedParameter, NameNode, Node,
    StateVariableDeclaration, Visibility,
};
use lunarity_contract::parser::parse;
use lunarity_contract::token::ElementaryTypeName;
use toolshed::list::List;
use toolshed::Arena;

fn node<T>(start: usize, end: usize, value: T) -> Node<T> {
    Node { start, end, value }
}

fn name(start: usize, end: usize, text: &'static str) -> NameNode<'static> {
    node(start, end, text.as_bytes())
}

fn list<'a, T: Copy>(arena: &'a Arena, items: Vec<T>) -> List<'a, T> {
    List::from_iter(arena, items)
}

fn assert_units<'a>(arena: &'a Arena, src: &str, expected: Vec<Node<ContractDefinition<'a>>>) {
    assert_eq!(parse(arena, src.as_bytes()), Ok(expected));
}

#[test]
fn empty_contract() {
    let m = Arena::new();
    assert_units(&m, r#"

            contract Foo {}
            contract Doge is Amazing {}
            contract This is Silly, Kinda {}

        "#, vec![
        node(14, 29, ContractDefinition {
            name: name(23, 26, "Foo"),
            inherits: List::empty(),
            body: List::empty(),
        }),
        node(42, 69, ContractDefinition {
            name: name(51, 55, "Doge"),
            inherits: list(&m, vec![
                name(59, 66, "Amazing"),
            ]),
            body: List::empty(),
        }),
        node(82, 114, ContractDefinition {
            name: name(91, 95, "This"),
            inherits: list(&m, vec![
                name(99, 104, "Silly"),
                name(106, 111, "Kinda"),
            ]),
            body: List::empty(),
        }),
    ]);
}

#[test]
fn empty_events() {
    let m = Arena::new();
    assert_units(&m, r#"

            contract Foo {
                event Horizon();
                event Alcoholics() anonymous;
            }

        "#, vec![
        node(14, 121, ContractDefinition {
            name: name(23, 26, "Foo"),
            inherits: List::empty(),
            body: list(&m, vec![
                node(45, 61, ContractPart::EventDefinition(EventDefinition {
                    anonymous: false,
                    name: name(51, 58, "Horizon"),
                    params: List::empty(),
                })),
                node(78, 107, ContractPart::EventDefinition(EventDefinition {
                    anonymous: true,
                    name: name(84, 94, "Alcoholics"),
                    params: List::empty(),
                })),
            ]),
        }),
    ]);
}

#[test]
fn event_with_parameters() {
    let m = Arena::new();
    assert_units(&m, r#"

            contract Foo {
                event Horizon(int32 indexed foo, bool bar);
            }

        "#, vec![
        node(14, 102, ContractDefinition {
            name: name(23, 26, "Foo"),
            inherits: List::empty(),
            body: list(&m, vec![
                node(45, 88, ContractPart::EventDefinition(EventDefinition {
                    anonymous: false,
                    name: name(51, 58, "Horizon"),
                    params: list(&m, vec![
                        node(59, 76, IndexedParameter {
                            indexed: true,
                            ty: node(59, 64, ElementaryTypeName::Int(4)),
                            name: name(73, 76, "foo"),
                        }),
                        node(78, 86, IndexedParameter {
                            indexed: false,
                            ty: node(78, 82, ElementaryTypeName::Bool),
                            name: name(83, 86, "bar"),
                        }),
                    ]),
                })),
            ]),
        }),
    ]);
}

#[test]
fn state_variable_declaration() {
    let m = Arena::new();
    assert_units(&m, r#"

            contract Foo {
                int32 foo;
                bytes10 public doge;
            }

        "#, vec![
        node(14, 106, ContractDefinition {
            name: name(23, 26, "Foo"),
            inherits: List::empty(),
            body: list(&m, vec![
                node(45, 55, ContractPart::StateVariableDeclaration(StateVariableDeclaration {
                    ty: node(45, 50, ElementaryTypeName::Int(4)),
                    visibility: Visibility::Unspecified,
                    name: name(51, 54, "foo"),
                    init: None,
                })),
                node(72, 92, ContractPart::StateVariableDeclaration(StateVariableDeclaration {
                    ty: node(72, 79, ElementaryTypeName::Byte(10)),
                    visibility: Visibility::Public,
                    name: name(87, 91, "doge"),
                    init: None,
                })),
            ]),
        }),
    ]);
}
