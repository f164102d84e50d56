use hgen::lang::parser::parse_shape;
use hgen::lang::schema::{Primitive, Shape};
use hgen::lang::source::render_shape_as_source;

fn round_trips(shape: Shape) {
    let source = render_shape_as_source(&shape);
    let back = parse_shape(source.as_str()).unwrap();
    assert_eq!(back, shape);
}

// Round trip: rendering a shape as source and parsing it back yields
// the same shape, exercised here on concrete values; the general law
// is proved in the library.
#[test]
fn primitives_round_trip() {
    round_trips(Shape::Primitive(Primitive::Unit));
    round_trips(Shape::Primitive(Primitive::Bool));
    round_trips(Shape::Primitive(Primitive::Int8));
    round_trips(Shape::Primitive(Primitive::Int128));
    round_trips(Shape::Primitive(Primitive::Float64));
    round_trips(Shape::Primitive(Primitive::String));
}

#[test]
fn references_round_trip() {
    round_trips(Shape::Reference(String::from("User")));
    round_trips(Shape::Reference(String::from("a_b_c9")));
}

#[test]
fn containers_round_trip() {
    round_trips(Shape::List(Box::new(Shape::Primitive(Primitive::Int32))));
    round_trips(Shape::SetOf(Box::new(Shape::Reference(String::from("Tag")))));
    round_trips(Shape::MapOf(
        Box::new(Shape::Primitive(Primitive::String)),
        Box::new(Shape::List(Box::new(Shape::Primitive(Primitive::Bool)))),
    ));
}

#[test]
fn nullables_round_trip() {
    round_trips(Shape::Nullable(Box::new(Shape::Primitive(Primitive::Int32))));
    round_trips(Shape::Nullable(Box::new(Shape::MapOf(
        Box::new(Shape::Primitive(Primitive::String)),
        Box::new(Shape::Nullable(Box::new(Shape::Reference(String::from(
            "Account",
        ))))),
    ))));
}

#[test]
fn rendering_is_plain_source() {
    let shape = Shape::Nullable(Box::new(Shape::MapOf(
        Box::new(Shape::Primitive(Primitive::String)),
        Box::new(Shape::Primitive(Primitive::Int32)),
    )));
    assert_eq!(render_shape_as_source(&shape), "Map<String, Int32>?\n");
}
