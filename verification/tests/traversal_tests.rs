use graph_store::graph::Graph;
use graph_store::vertex::Property;

fn named_property(name: &str, value: &str) -> Property {
    Property {
        name: String::from(name),
        value: String::from(value),
    }
}

#[test]
fn v_has_returns_matching_properties() {
    let mut graph = Graph::new(String::from("test"));
    graph.addV_with_properties(
        String::from("target"),
        vec![named_property("name", "target")],
    );
    graph.addV_with_properties(
        String::from("source"),
        vec![named_property("name", "target")],
    );
    graph.addV(String::from("source"));
    graph
        .addE(String::from("edge"))
        .from(&graph, String::from("source"))
        .unwrap()
        .to(&mut graph, String::from("target"))
        .unwrap();
    let vs = graph.V();
    assert_eq!(
        graph
            .has(&vs, &String::from("name"), &String::from("target"))
            .len(),
        2
    );
    assert_eq!(
        graph
            .has(&vs, &String::from("name"), &String::from("no one"))
            .len(),
        0
    );
}

#[test]
fn out_e_returns_matching_edges() {
    let mut graph = Graph::new(String::from("test"));
    graph.addV(String::from("from"));
    graph.addV(String::from("to"));
    graph
        .addE(String::from("edge"))
        .from(&graph, String::from("from"))
        .unwrap()
        .to(&mut graph, String::from("to"))
        .unwrap();
    graph
        .addE(String::from("edge2"))
        .from(&graph, String::from("from"))
        .unwrap()
        .to(&mut graph, String::from("to"))
        .unwrap();
    graph
        .addE(String::from("edge2"))
        .from(&graph, String::from("to"))
        .unwrap()
        .to(&mut graph, String::from("from"))
        .unwrap();
    let vs = graph.V();
    assert_eq!(graph.outE(&vs, &String::from("edge")).len(), 1);
    assert_eq!(graph.outE(&vs, &String::from("edge2")).len(), 2);
    assert_eq!(graph.outE(&vs, &String::from("no edge")).len(), 0);
}

#[test]
fn in_e_returns_matching_edges() {
    let mut graph = Graph::new(String::from("test"));
    graph.addV(String::from("from"));
    graph.addV(String::from("to"));
    graph
        .addE(String::from("edge"))
        .from(&graph, String::from("from"))
        .unwrap()
        .to(&mut graph, String::from("to"))
        .unwrap();
    graph
        .addE(String::from("edge2"))
        .from(&graph, String::from("from"))
        .unwrap()
        .to(&mut graph, String::from("to"))
        .unwrap();
    graph
        .addE(String::from("edge2"))
        .from(&graph, String::from("to"))
        .unwrap()
        .to(&mut graph, String::from("from"))
        .unwrap();
    let vs = graph.V();
    assert_eq!(graph.inE(&vs, &String::from("edge")).len(), 1);
    assert_eq!(graph.inE(&vs, &String::from("edge2")).len(), 2);
    assert_eq!(graph.inE(&vs, &String::from("no edge")).len(), 0);
}

#[test]
fn out_and_in_return_edge_endpoints() {
    let mut graph = Graph::new(String::from("g"));
    let source = graph.addV(String::from("source"));
    let target = graph.addV(String::from("target"));
    graph
        .addE(String::from("edge"))
        .from(&graph, String::from("source"))
        .unwrap()
        .to(&mut graph, String::from("target"))
        .unwrap();
    let vs = graph.V();
    let outs = graph.out(&vs, &String::from("edge"));
    assert_eq!(outs, vec![target]);
    let ins = graph.in_(&vs, &String::from("edge"));
    assert_eq!(ins, vec![source]);
}

#[test]
fn has_deduplicates_vertices_matching_twice() {
    let mut graph = Graph::new(String::from("g"));
    graph.addV_with_properties(
        String::from("a"),
        vec![named_property("tag", "x"), named_property("tag", "x")],
    );
    let vs = graph.V();
    assert_eq!(
        graph.has(&vs, &String::from("tag"), &String::from("x")).len(),
        1
    );
}

#[test]
fn has_deduplicates_repeated_input_ids() {
    let mut graph = Graph::new(String::from("g"));
    let a = graph.addV_with_properties(String::from("a"), vec![named_property("tag", "x")]);
    let doubled = vec![a, a];
    assert_eq!(
        graph
            .has(&doubled, &String::from("tag"), &String::from("x"))
            .len(),
        1
    );
}

#[test]
fn has_preserves_input_order() {
    let mut graph = Graph::new(String::from("g"));
    let a = graph.addV_with_properties(String::from("a"), vec![named_property("tag", "x")]);
    graph.addV(String::from("b"));
    let c = graph.addV_with_properties(String::from("c"), vec![named_property("tag", "x")]);
    let vs = graph.V();
    let r = graph.has(&vs, &String::from("tag"), &String::from("x"));
    assert_eq!(r, vec![a, c]);
}

#[test]
fn queries_are_idempotent_on_unmodified_store() {
    let mut graph = Graph::new(String::from("g"));
    graph.addV_with_properties(String::from("from"), vec![named_property("name", "from")]);
    graph.addV(String::from("to"));
    graph
        .addE(String::from("edge"))
        .from(&graph, String::from("from"))
        .unwrap()
        .to(&mut graph, String::from("to"))
        .unwrap();
    graph
        .addE(String::from("edge"))
        .from(&graph, String::from("to"))
        .unwrap()
        .to(&mut graph, String::from("from"))
        .unwrap();
    let vs = graph.V();
    let has_1 = graph.has(&vs, &String::from("name"), &String::from("from"));
    let has_2 = graph.has(&vs, &String::from("name"), &String::from("from"));
    assert_eq!(has_1, has_2);
    let out_1 = graph.outE(&vs, &String::from("edge"));
    let out_2 = graph.outE(&vs, &String::from("edge"));
    assert_eq!(out_1, out_2);
    let in_1 = graph.inE(&vs, &String::from("edge"));
    let in_2 = graph.inE(&vs, &String::from("edge"));
    assert_eq!(in_1, in_2);
}

#[test]
fn traversal_after_removal_sees_consistent_adjacency() {
    let mut graph = Graph::new(String::from("g"));
    graph.addV(String::from("a"));
    let b = graph.addV(String::from("b"));
    graph.addV(String::from("c"));
    for (from, to) in [("a", "b"), ("b", "c"), ("a", "c"), ("c", "a")] {
        graph
            .addE(String::from("link"))
            .from(&graph, String::from(from))
            .unwrap()
            .to(&mut graph, String::from(to))
            .unwrap();
    }
    graph.removeV(b).unwrap();
    let vs = graph.V();
    let outgoing = graph.outE(&vs, &String::from("link"));
    let incoming = graph.inE(&vs, &String::from("link"));
    assert_eq!(outgoing.len(), 2);
    assert_eq!(incoming.len(), 2);
    let mut sorted_out = outgoing.clone();
    sorted_out.sort_by_key(|e| e.idx);
    let mut sorted_in = incoming.clone();
    sorted_in.sort_by_key(|e| e.idx);
    assert_eq!(sorted_out, sorted_in);
}
