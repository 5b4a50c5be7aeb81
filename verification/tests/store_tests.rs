use graph_store::graph::Graph;
use graph_store::vertex::Property;
use graph_store::{GraphError, VertexId};

#[test]
fn add_v_adds_vertex_to_graph() {
    let mut graph = Graph::new(String::from("test"));
    graph.addV(String::from("test"));
    assert_eq!(graph.V().len(), 1);
}

#[test]
fn add_2_vertices_to_graph() {
    let mut graph = Graph::new(String::from("test"));
    graph.addV(String::from("test"));
    graph.addV(String::from("test"));
    assert_eq!(graph.V().len(), 2);
}

#[test]
fn add_e_to_graph() {
    let mut graph = Graph::new(String::from("test"));
    graph.addV(String::from("target"));
    graph.addV(String::from("source"));
    graph.addE(String::from("test"));
    assert_eq!(graph.E().len(), 0);
}

#[test]
fn add_e_from_to_chained_adds_edge_to_graph() {
    let mut graph = Graph::new(String::from("test"));
    graph.addV(String::from("target"));
    graph.addV(String::from("source"));
    graph
        .addE(String::from("edge"))
        .from(&graph, String::from("source"))
        .unwrap()
        .to(&mut graph, String::from("target"))
        .unwrap();
    assert_eq!(graph.E().len(), 1);
}

#[test]
fn v_returns_all_vertices() {
    let mut graph = Graph::new(String::from("test"));
    graph.addV(String::from("target"));
    graph.addV(String::from("source"));
    assert_eq!(graph.V().len(), 2);
}

#[test]
fn e_returns_all_edges() {
    let mut graph = Graph::new(String::from("test"));
    graph.addV(String::from("target"));
    graph.addV(String::from("source"));
    graph
        .addE(String::from("edge"))
        .from(&graph, String::from("source"))
        .unwrap()
        .to(&mut graph, String::from("target"))
        .unwrap();
    assert_eq!(graph.E().len(), 1);
}

#[test]
fn add_v_returns_id_listed_by_v() {
    let mut graph = Graph::new(String::from("g"));
    let a = graph.addV(String::from("a"));
    let b = graph.addV(String::from("b"));
    let vs = graph.V();
    assert_eq!(vs.len(), 2);
    assert_eq!(vs[0], a);
    assert_eq!(vs[1], b);
}

#[test]
fn new_store_is_empty() {
    let graph = Graph::new(String::from("g"));
    assert_eq!(graph.V().len(), 0);
    assert_eq!(graph.E().len(), 0);
    assert_eq!(
        graph.get_vertex(&String::from("anything")),
        Err(GraphError::NotFound)
    );
}

#[test]
fn get_vertex_finds_first_match_in_insertion_order() {
    let mut graph = Graph::new(String::from("g"));
    graph.addV(String::from("other"));
    let first = graph.addV(String::from("dup"));
    graph.addV(String::from("dup"));
    assert_eq!(graph.get_vertex(&String::from("dup")), Ok(first));
}

#[test]
fn get_vertex_skips_removed_vertices() {
    let mut graph = Graph::new(String::from("g"));
    let first = graph.addV(String::from("dup"));
    let second = graph.addV(String::from("dup"));
    graph.removeV(first).unwrap();
    assert_eq!(graph.get_vertex(&String::from("dup")), Ok(second));
}

#[test]
fn edge_builder_from_fails_on_unknown_vertex() {
    let mut graph = Graph::new(String::from("g"));
    graph.addV(String::from("target"));
    let r = graph
        .addE(String::from("edge"))
        .from(&graph, String::from("missing"));
    assert!(matches!(r, Err(GraphError::NotFound)));
    assert_eq!(graph.V().len(), 1);
    assert_eq!(graph.E().len(), 0);
}

#[test]
fn edge_builder_to_fails_on_unknown_vertex() {
    let mut graph = Graph::new(String::from("g"));
    graph.addV(String::from("source"));
    let staged = graph
        .addE(String::from("edge"))
        .from(&graph, String::from("source"))
        .unwrap();
    let r = staged.to(&mut graph, String::from("missing"));
    assert!(matches!(r, Err(GraphError::NotFound)));
    assert_eq!(graph.V().len(), 1);
    assert_eq!(graph.E().len(), 0);
}

#[test]
fn edge_builder_without_commit_adds_nothing() {
    let mut graph = Graph::new(String::from("g"));
    graph.addV(String::from("source"));
    graph.addV(String::from("target"));
    let _staged = graph
        .addE(String::from("edge"))
        .from(&graph, String::from("source"))
        .unwrap();
    assert_eq!(graph.E().len(), 0);
}

#[test]
fn edge_builder_to_fails_when_source_was_removed() {
    let mut graph = Graph::new(String::from("g"));
    let source = graph.addV(String::from("source"));
    graph.addV(String::from("target"));
    let staged = graph
        .addE(String::from("edge"))
        .from(&graph, String::from("source"))
        .unwrap();
    graph.removeV(source).unwrap();
    let r = staged.to(&mut graph, String::from("target"));
    assert!(matches!(r, Err(GraphError::NotFound)));
    assert_eq!(graph.E().len(), 0);
}

#[test]
fn remove_vertex_cascades_to_incident_edges() {
    let mut graph = Graph::new(String::from("g"));
    graph.addV(String::from("from"));
    let to = graph.addV(String::from("to"));
    graph
        .addE(String::from("edge"))
        .from(&graph, String::from("from"))
        .unwrap()
        .to(&mut graph, String::from("to"))
        .unwrap();
    graph
        .addE(String::from("edge2"))
        .from(&graph, String::from("to"))
        .unwrap()
        .to(&mut graph, String::from("from"))
        .unwrap();
    graph.removeV(to).unwrap();
    assert_eq!(graph.V().len(), 1);
    assert_eq!(graph.E().len(), 0);
    let vs = graph.V();
    assert_eq!(graph.outE(&vs, &String::from("edge")).len(), 0);
    assert_eq!(graph.inE(&vs, &String::from("edge2")).len(), 0);
}

#[test]
fn remove_vertex_keeps_unrelated_edges() {
    let mut graph = Graph::new(String::from("g"));
    graph.addV(String::from("a"));
    let b = graph.addV(String::from("b"));
    graph.addV(String::from("c"));
    for (from, to) in [("a", "b"), ("b", "c"), ("a", "c")] {
        graph
            .addE(String::from("link"))
            .from(&graph, String::from(from))
            .unwrap()
            .to(&mut graph, String::from(to))
            .unwrap();
    }
    graph.removeV(b).unwrap();
    assert_eq!(graph.V().len(), 2);
    assert_eq!(graph.E().len(), 1);
    let vs = graph.V();
    let survivors = graph.outE(&vs, &String::from("link"));
    assert_eq!(survivors.len(), 1);
    let targets = graph.out(&vs, &String::from("link"));
    assert_eq!(targets.len(), 1);
    assert_eq!(targets[0], graph.get_vertex(&String::from("c")).unwrap());
}

#[test]
fn remove_nonexistent_vertex_fails_and_leaves_store_unchanged() {
    let mut graph = Graph::new(String::from("g"));
    graph.addV(String::from("a"));
    graph.addV(String::from("b"));
    graph
        .addE(String::from("edge"))
        .from(&graph, String::from("a"))
        .unwrap()
        .to(&mut graph, String::from("b"))
        .unwrap();
    let vertices_before = graph.V().len();
    let edges_before = graph.E().len();
    let r = graph.removeV(VertexId { idx: 99 });
    assert_eq!(r, Err(GraphError::NotFound));
    assert_eq!(graph.V().len(), vertices_before);
    assert_eq!(graph.E().len(), edges_before);
}

#[test]
fn remove_vertex_twice_fails_the_second_time() {
    let mut graph = Graph::new(String::from("g"));
    let a = graph.addV(String::from("a"));
    assert_eq!(graph.removeV(a), Ok(()));
    assert_eq!(graph.removeV(a), Err(GraphError::NotFound));
    assert_eq!(graph.V().len(), 0);
}

#[test]
fn vertex_ids_are_not_reused_after_removal() {
    let mut graph = Graph::new(String::from("g"));
    let a = graph.addV(String::from("a"));
    graph.removeV(a).unwrap();
    let b = graph.addV(String::from("b"));
    assert_ne!(a, b);
    let vs = graph.V();
    assert_eq!(vs.len(), 1);
    assert_eq!(vs[0], b);
}

#[test]
fn self_loop_edge_is_registered_and_cascades() {
    let mut graph = Graph::new(String::from("g"));
    let a = graph.addV(String::from("a"));
    graph
        .addE(String::from("loop"))
        .from(&graph, String::from("a"))
        .unwrap()
        .to(&mut graph, String::from("a"))
        .unwrap();
    assert_eq!(graph.E().len(), 1);
    let vs = graph.V();
    assert_eq!(graph.outE(&vs, &String::from("loop")).len(), 1);
    assert_eq!(graph.inE(&vs, &String::from("loop")).len(), 1);
    graph.removeV(a).unwrap();
    assert_eq!(graph.V().len(), 0);
    assert_eq!(graph.E().len(), 0);
}

#[test]
fn add_v_with_properties_seeds_properties() {
    let mut graph = Graph::new(String::from("g"));
    graph.addV_with_properties(
        String::from("a"),
        vec![
            Property {
                name: String::from("kind"),
                value: String::from("start"),
            },
            Property {
                name: String::from("kind"),
                value: String::from("extra"),
            },
        ],
    );
    let vs = graph.V();
    assert_eq!(
        graph
            .has(&vs, &String::from("kind"), &String::from("start"))
            .len(),
        1
    );
    assert_eq!(
        graph
            .has(&vs, &String::from("kind"), &String::from("extra"))
            .len(),
        1
    );
    assert_eq!(
        graph
            .has(&vs, &String::from("kind"), &String::from("other"))
            .len(),
        0
    );
}
