use collab_engine::ai::model_builder::decimal_string;
use collab_engine::ai::model_builder::join_lines;
use collab_engine::ai::model_builder::Edge;
use collab_engine::ai::model_builder::GenerateModelResponse;
use collab_engine::ai::model_builder::GraphError;
use collab_engine::ai::model_builder::ModelBuilder;
use collab_engine::ai::model_builder::ModelGraph;
use collab_engine::ai::model_builder::Node;
use collab_engine::ai::model_builder::NodeType;

fn node(id: &str, node_type: NodeType) -> Node {
    Node { id: id.to_string(), node_type }
}

fn edge(id: &str, source: &str, target: &str) -> Edge {
    Edge { id: id.to_string(), source: source.to_string(), target: target.to_string() }
}

#[test]
fn test_simple_sequential_model() {
    let builder = ModelBuilder::new();

    let graph = ModelGraph {
        nodes: vec![
            node("1", NodeType::InputLayer),
            node("2", NodeType::DenseLayer { units: 64, activation: "relu".to_string() }),
            node("3", NodeType::OutputLayer { units: 10, activation: "softmax".to_string() }),
        ],
        edges: vec![edge("e1-2", "1", "2"), edge("e2-3", "2", "3")],
    };

    let result = builder.generate_model(&graph);
    assert!(result.is_ok());

    let model = result.unwrap();
    assert!(model.code.contains("Dense(64, activation='relu')"));
    assert!(model.code.contains("Dense(10, activation='softmax')"));
    assert!(model.requirements.contains(&"tensorflow>=2.0.0".to_string()));
}

#[test]
fn the_whole_generated_code() {
    let graph = ModelGraph {
        nodes: vec![
            node("in", NodeType::InputLayer),
            node(
                "c",
                NodeType::Conv2DLayer { filters: 32, kernel_size: (3, 5), activation: "relu".to_string() },
            ),
            node("p", NodeType::MaxPooling2DLayer { pool_size: (2, 2) }),
            node("f", NodeType::FlattenLayer),
            node("d", NodeType::DropoutLayer { rate: "0.25".to_string() }),
            node("h", NodeType::DenseLayer { units: 128, activation: "tanh".to_string() }),
            node("out", NodeType::OutputLayer { units: 10, activation: "softmax".to_string() }),
        ],
        edges: Vec::new(),
    };
    let model = ModelBuilder::new().generate_keras_model(&graph);
    let expected = [
        "def create_model(input_shape):",
        "    # Input layer",
        "    input = layers.Input(shape=input_shape, name='input')",
        "    conv2d_1 = layers.Conv2D(32, kernel_size=(3, 5), activation='relu', padding='same', name='conv2d_1')(input)",
        "    maxpool_2 = layers.MaxPooling2D(pool_size=(2, 2), name='maxpool_2')(conv2d_1)",
        "    flatten_3 = layers.Flatten(name='flatten_3')(maxpool_2)",
        "    dropout_4 = layers.Dropout(0.25, name='dropout_4')(flatten_3)",
        "    dense_5 = layers.Dense(128, activation='tanh')(dropout_4)",
        "    output = layers.Dense(10, activation='softmax')(dense_5)",
        "    model = Model(inputs=input, outputs=output, name='generated_model')",
        "    return model",
        "",
        "def compile_model(model, optimizer='adam', loss='sparse_categorical_crossentropy', metrics=['accuracy']):",
        "    model.compile(optimizer=optimizer, loss=loss, metrics=metrics)",
        "    return model",
        "",
        "def train_model(model, X_train, y_train, X_val=None, y_val=None, epochs=10, batch_size=32, callbacks=None):",
        "    history = model.fit(",
        "        X_train, y_train,",
        "        validation_data=(X_val, y_val) if X_val is not None and y_val is not None else None,",
        "        epochs=epochs,",
        "        batch_size=batch_size,",
        "        callbacks=callbacks,",
        "        verbose=1",
        "    )",
        "    return history",
    ]
    .join("\n");
    assert_eq!(model.code, expected);
    assert_eq!(model.requirements, vec!["tensorflow>=2.0.0".to_string(), "numpy>=1.19.0".to_string()]);
    assert_eq!(model.model_summary, "Generated model with 7 layers");
}

#[test]
fn graphs_that_fail_the_checks() {
    let builder = ModelBuilder::new();
    let empty = ModelGraph { nodes: Vec::new(), edges: Vec::new() };
    assert!(matches!(builder.validate_graph(&empty), Err(GraphError::Empty)));
    assert!(matches!(builder.generate_model(&empty), Err(GraphError::Empty)));

    let no_input = ModelGraph {
        nodes: vec![node("o", NodeType::OutputLayer { units: 1, activation: "x".to_string() })],
        edges: Vec::new(),
    };
    assert!(matches!(builder.validate_graph(&no_input), Err(GraphError::NoInputLayer)));

    let no_output = ModelGraph {
        nodes: vec![node("i", NodeType::InputLayer), node("f", NodeType::FlattenLayer)],
        edges: vec![edge("e", "i", "f")],
    };
    assert!(matches!(builder.validate_graph(&no_output), Err(GraphError::NoOutputLayer)));

    let loose = ModelGraph {
        nodes: vec![
            node("i", NodeType::InputLayer),
            node("a", NodeType::FlattenLayer),
            node("o", NodeType::OutputLayer { units: 1, activation: "x".to_string() }),
            node("b", NodeType::FlattenLayer),
        ],
        edges: vec![edge("e", "i", "o")],
    };
    match builder.validate_graph(&loose) {
        Err(GraphError::Disconnected(ids)) => assert_eq!(ids, vec!["a".to_string(), "b".to_string()]),
        other => panic!("unexpected {:?}", other),
    }

    let sound = ModelGraph {
        nodes: vec![
            node("i", NodeType::InputLayer),
            node("o", NodeType::OutputLayer { units: 1, activation: "x".to_string() }),
        ],
        edges: vec![edge("e", "i", "o")],
    };
    assert!(builder.validate_graph(&sound).is_ok());
}

#[test]
fn numbers_in_decimal_and_lines_joined() {
    assert_eq!(decimal_string(0), "0");
    assert_eq!(decimal_string(7), "7");
    assert_eq!(decimal_string(10), "10");
    assert_eq!(decimal_string(4096), "4096");
    assert_eq!(decimal_string(u64::MAX), "18446744073709551615");
    assert_eq!(join_lines(&Vec::new()), "");
    assert_eq!(join_lines(&vec!["one".to_string()]), "one");
    assert_eq!(join_lines(&vec!["a".to_string(), "".to_string(), "b".to_string()]), "a\n\nb");
}

#[test]
fn a_response_carries_the_model() {
    let graph = ModelGraph {
        nodes: vec![
            node("i", NodeType::InputLayer),
            node("o", NodeType::OutputLayer { units: 2, activation: "sigmoid".to_string() }),
        ],
        edges: vec![edge("e", "i", "o")],
    };
    let model = ModelBuilder::new().generate_model(&graph).unwrap();
    let code = model.code.clone();
    let response = GenerateModelResponse::for_model("m-1".to_string(), model);
    assert_eq!(response.model_id, "m-1");
    assert_eq!(response.code, code);
    assert_eq!(response.requirements.len(), 2);
    assert_eq!(response.summary, "Generated model with 2 layers");
}
