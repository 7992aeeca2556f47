//! A model drawn as a graph of layers, and the checks that a graph must pass
//! before code is generated from it.
use vstd::prelude::*;
use vstd::string::StringExecFns;

verus! {

/// The kind of a layer, with its settings. The rate of a dropout layer is
/// kept as it is written in decimal, which is all the builder needs of it.
#[derive(Debug)]
pub enum NodeType {
    InputLayer,
    DenseLayer { units: u32, activation: String },
    DropoutLayer { rate: String },
    Conv2DLayer { filters: u32, kernel_size: (u32, u32), activation: String },
    MaxPooling2DLayer { pool_size: (u32, u32) },
    FlattenLayer,
    OutputLayer { units: u32, activation: String },
}

/// A layer of the graph.
#[derive(Debug)]
pub struct Node {
    pub id: String,
    pub node_type: NodeType,
}

/// A connection from the layer `source` to the layer `target`.
#[derive(Debug)]
pub struct Edge {
    pub id: String,
    pub source: String,
    pub target: String,
}

/// A model as drawn: its layers, in the order in which code is generated for
/// them, and the connections between them.
#[derive(Debug)]
pub struct ModelGraph {
    pub nodes: Vec<Node>,
    pub edges: Vec<Edge>,
}

/// The code generated for a model, the packages it needs, and a summary in
/// words.
#[derive(Debug)]
pub struct GeneratedModel {
    pub code: String,
    pub requirements: Vec<String>,
    pub model_summary: String,
}

/// A generated model as it is handed to a caller, under an identifier.
#[derive(Debug)]
pub struct GenerateModelResponse {
    pub model_id: String,
    pub code: String,
    pub requirements: Vec<String>,
    pub summary: String,
}

impl GenerateModelResponse {
    /// The response for `model` under the identifier `model_id`: the code,
    /// the requirements and the summary are those of the model.
    pub fn for_model(model_id: String, model: GeneratedModel) -> (response: Self)
        ensures
            response.model_id == model_id,
            response.code == model.code,
            response.requirements == model.requirements,
            response.summary == model.model_summary,
    {
        GenerateModelResponse {
            model_id,
            code: model.code,
            requirements: model.requirements,
            summary: model.model_summary,
        }
    }
}

/// Why a graph cannot be turned into a model.
#[derive(Debug)]
pub enum GraphError {
    /// The graph has no layer.
    Empty,
    /// No layer is an input layer.
    NoInputLayer,
    /// No layer is an output layer.
    NoOutputLayer,
    /// The layers named here are at neither end of any connection.
    Disconnected(Vec<String>),
}

/// The mathematical form of a [`GraphError`].
pub ghost enum Fault {
    Empty,
    NoInputLayer,
    NoOutputLayer,
    Disconnected(Seq<Seq<char>>),
}

/// A list of strings, each taken by its view.
pub open spec fn texts(strings: Seq<String>) -> Seq<Seq<char>> {
    strings.map_values(|s: String| s@)
}

impl View for GraphError {
    type V = Fault;

    open spec fn view(&self) -> Fault {
        match *self {
            GraphError::Empty => Fault::Empty,
            GraphError::NoInputLayer => Fault::NoInputLayer,
            GraphError::NoOutputLayer => Fault::NoOutputLayer,
            GraphError::Disconnected(ids) => Fault::Disconnected(texts(ids@)),
        }
    }
}

/// The layer `id` is at one end of some connection.
pub open spec fn connected(id: Seq<char>, edges: Seq<Edge>) -> bool {
    exists|i: int| 0 <= i < edges.len() && connects(#[trigger] edges[i], id)
}

/// The connection `edge` starts or ends at the layer `id`.
pub open spec fn connects(edge: Edge, id: Seq<char>) -> bool {
    edge.source@ == id || edge.target@ == id
}

/// The test that keeps the layers at neither end of any connection.
pub open spec fn loose(edges: Seq<Edge>) -> spec_fn(Node) -> bool {
    |node: Node| !connected(node.id@, edges)
}

/// The identifiers of the layers at neither end of any connection, in the
/// order of the layers.
pub open spec fn disconnected(graph: ModelGraph) -> Seq<Seq<char>> {
    graph.nodes@.filter(loose(graph.edges@)).map_values(|node: Node| node.id@)
}

/// Some layer of `nodes` is an input layer.
pub open spec fn has_input(nodes: Seq<Node>) -> bool {
    exists|i: int| 0 <= i < nodes.len() && (#[trigger] nodes[i]).node_type is InputLayer
}

/// Some layer of `nodes` is an output layer.
pub open spec fn has_output(nodes: Seq<Node>) -> bool {
    exists|i: int| 0 <= i < nodes.len() && (#[trigger] nodes[i]).node_type is OutputLayer
}

/// What is wrong with the graph, if anything: the first of these that
/// holds. It has no layer; it has no input layer; it has no output layer;
/// some of its layers are at neither end of any connection.
pub open spec fn fault(graph: ModelGraph) -> Option<Fault> {
    if graph.nodes@.len() == 0 {
        Some(Fault::Empty)
    } else if !has_input(graph.nodes@) {
        Some(Fault::NoInputLayer)
    } else if !has_output(graph.nodes@) {
        Some(Fault::NoOutputLayer)
    } else if disconnected(graph).len() > 0 {
        Some(Fault::Disconnected(disconnected(graph)))
    } else {
        None
    }
}

/// Turns a drawn graph into model code.
#[derive(Debug, Clone, Copy)]
pub struct ModelBuilder;

/// Whether the layer `id` is at one end of some connection of `edges`.
fn is_connected(id: &String, edges: &Vec<Edge>) -> (found: bool)
    ensures
        found == connected(id@, edges@),
{
    let mut i: usize = 0;
    while i < edges.len()
        invariant
            i <= edges.len(),
            forall|j: int| 0 <= j < i ==> !connects(#[trigger] edges@[j], id@),
        decreases edges.len() - i,
    {
        if edges[i].source == *id || edges[i].target == *id {
            assert(connects(edges@[i as int], id@));
            return true;
        }
        i += 1;
    }
    false
}

/// The identifiers of the layers at neither end of any connection, in the
/// order of the layers.
fn loose_layers(graph: &ModelGraph) -> (ids: Vec<String>)
    ensures
        texts(ids@) == disconnected(*graph),
{
    let mut ids: Vec<String> = Vec::new();
    let mut i: usize = 0;
    let ghost keep = loose(graph.edges@);
    let ghost name = |node: Node| node.id@;
    proof {
        reveal(Seq::filter);
        assert(graph.nodes@.take(0) =~= Seq::empty());
        assert(texts(ids@) =~= graph.nodes@.take(0).filter(keep).map_values(name));
    }
    while i < graph.nodes.len()
        invariant
            i <= graph.nodes.len(),
            keep == loose(graph.edges@),
            name == |node: Node| node.id@,
            texts(ids@) == graph.nodes@.take(i as int).filter(keep).map_values(name),
        decreases graph.nodes.len() - i,
    {
        let node = &graph.nodes[i];
        proof {
            assert(graph.nodes@.take(i + 1) =~= graph.nodes@.take(i as int).push(*node));
            graph.nodes@.take(i as int).lemma_filter_push(*node, keep);
        }
        if !is_connected(&node.id, &graph.edges) {
            let ghost before = ids@;
            ids.push(node.id.clone());
            proof {
                let kept = graph.nodes@.take(i as int).filter(keep);
                assert(texts(ids@) =~= texts(before).push(node.id@));
                assert(kept.push(*node).map_values(name) =~= kept.map_values(name).push(node.id@));
            }
        }
        i += 1;
    }
    proof {
        assert(graph.nodes@.take(i as int) =~= graph.nodes@);
    }
    ids
}

impl ModelBuilder {
    /// A builder. It holds no state.
    pub fn new() -> (builder: Self)
        ensures
            builder == ModelBuilder,
    {
        ModelBuilder
    }

    /// Checks that code can be generated from the graph: it has a layer, an
    /// input layer and an output layer, and every layer is at one end of
    /// some connection. The first of these that fails is the error.
    pub fn validate_graph(&self, graph: &ModelGraph) -> (result: Result<(), GraphError>)
        ensures
            match result {
                Ok(_) => fault(*graph) is None,
                Err(e) => fault(*graph) == Some(e@),
            },
    {
        if graph.nodes.len() == 0 {
            return Err(GraphError::Empty);
        }
        let mut input_seen = false;
        let mut output_seen = false;
        let mut i: usize = 0;
        while i < graph.nodes.len()
            invariant
                i <= graph.nodes.len(),
                input_seen == has_input(graph.nodes@.take(i as int)),
                output_seen == has_output(graph.nodes@.take(i as int)),
            decreases graph.nodes.len() - i,
        {
            let ghost seen = graph.nodes@.take(i as int);
            let ghost more = graph.nodes@.take(i + 1);
            proof {
                assert(forall|j: int| 0 <= j < seen.len() ==> seen[j] == more[j]);
                assert(more[i as int] == graph.nodes@[i as int]);
                if has_input(seen) {
                    let j = choose|j: int| 0 <= j < seen.len() && seen[j].node_type is InputLayer;
                    assert(more[j].node_type is InputLayer);
                }
                if has_output(seen) {
                    let j = choose|j: int| 0 <= j < seen.len() && seen[j].node_type is OutputLayer;
                    assert(more[j].node_type is OutputLayer);
                }
                if has_input(more) && !(graph.nodes@[i as int].node_type is InputLayer) {
                    let j = choose|j: int| 0 <= j < more.len() && more[j].node_type is InputLayer;
                    assert(seen[j].node_type is InputLayer);
                }
                if has_output(more) && !(graph.nodes@[i as int].node_type is OutputLayer) {
                    let j = choose|j: int| 0 <= j < more.len() && more[j].node_type is OutputLayer;
                    assert(seen[j].node_type is OutputLayer);
                }
            }
            match &graph.nodes[i].node_type {
                NodeType::InputLayer => {
                    input_seen = true;
                },
                NodeType::OutputLayer { .. } => {
                    output_seen = true;
                },
                _ => {},
            }
            i += 1;
        }
        proof {
            assert(graph.nodes@.take(i as int) =~= graph.nodes@);
        }
        if !input_seen {
            return Err(GraphError::NoInputLayer);
        }
        if !output_seen {
            return Err(GraphError::NoOutputLayer);
        }
        let loose = loose_layers(graph);
        if loose.len() > 0 {
            return Err(GraphError::Disconnected(loose));
        }
        Ok(())
    }
}

/// The decimal digit of `d`, for `d` below ten.
pub open spec fn digit(d: nat) -> Seq<char> {
    if d == 0 {
        "0"@
    } else if d == 1 {
        "1"@
    } else if d == 2 {
        "2"@
    } else if d == 3 {
        "3"@
    } else if d == 4 {
        "4"@
    } else if d == 5 {
        "5"@
    } else if d == 6 {
        "6"@
    } else if d == 7 {
        "7"@
    } else if d == 8 {
        "8"@
    } else {
        "9"@
    }
}

/// `n` written in decimal, without leading zeros.
pub open spec fn decimal(n: nat) -> Seq<char>
    decreases n,
{
    if n < 10 {
        digit(n)
    } else {
        decimal(n / 10) + digit(n % 10)
    }
}

/// `lines` with a line feed between each two of them.
pub open spec fn joined(lines: Seq<Seq<char>>) -> Seq<char>
    decreases lines.len(),
{
    if lines.len() == 0 {
        Seq::empty()
    } else if lines.len() == 1 {
        lines[0]
    } else {
        joined(lines.drop_last()) + "\n"@ + lines.last()
    }
}

/// The name under which the code holds the layer `node`, the `index`-th of
/// the graph, or `None` for an input layer, which takes no name of its own.
pub open spec fn layer_name(node: Node, index: nat) -> Option<Seq<char>> {
    match node.node_type {
        NodeType::InputLayer => None,
        NodeType::DenseLayer { .. } => Some("dense_"@ + decimal(index)),
        NodeType::DropoutLayer { .. } => Some("dropout_"@ + decimal(index)),
        NodeType::Conv2DLayer { .. } => Some("conv2d_"@ + decimal(index)),
        NodeType::MaxPooling2DLayer { .. } => Some("maxpool_"@ + decimal(index)),
        NodeType::FlattenLayer => Some("flatten_"@ + decimal(index)),
        NodeType::OutputLayer { .. } => Some("output"@),
    }
}

/// The name of the layer that the next layer is fed from, after the first
/// `count` layers: that of the last layer among them that is neither an
/// input nor an output layer, and `input` where there is none.
pub open spec fn feeding(nodes: Seq<Node>, count: nat) -> Seq<char>
    decreases count,
{
    if count == 0 {
        "input"@
    } else {
        let node = nodes[count - 1];
        match node.node_type {
            NodeType::InputLayer => feeding(nodes, (count - 1) as nat),
            NodeType::OutputLayer { .. } => feeding(nodes, (count - 1) as nat),
            _ => layer_name(node, (count - 1) as nat)->Some_0,
        }
    }
}

/// The line of code for the layer `node`, the `index`-th of the graph, fed
/// from the layer named `from`.
pub open spec fn layer_line(node: Node, index: nat, from: Seq<char>) -> Seq<char> {
    match node.node_type {
        NodeType::InputLayer => "    "@ + from + " = layers.Input(shape=input_shape, name='input')"@,
        NodeType::DenseLayer { units, activation } => {
            let name = "dense_"@ + decimal(index);
            "    "@ + name + " = layers.Dense("@ + decimal(units as nat) + ", activation='"@
                + activation@ + "')("@ + from + ")"@
        },
        NodeType::DropoutLayer { rate } => {
            let name = "dropout_"@ + decimal(index);
            "    "@ + name + " = layers.Dropout("@ + rate@ + ", name='"@ + name + "')("@ + from
                + ")"@
        },
        NodeType::Conv2DLayer { filters, kernel_size, activation } => {
            let name = "conv2d_"@ + decimal(index);
            "    "@ + name + " = layers.Conv2D("@ + decimal(filters as nat) + ", kernel_size=("@
                + decimal(kernel_size.0 as nat) + ", "@ + decimal(kernel_size.1 as nat)
                + "), activation='"@ + activation@ + "', padding='same', name='"@ + name + "')("@
                + from + ")"@
        },
        NodeType::MaxPooling2DLayer { pool_size } => {
            let name = "maxpool_"@ + decimal(index);
            "    "@ + name + " = layers.MaxPooling2D(pool_size=("@ + decimal(pool_size.0 as nat)
                + ", "@ + decimal(pool_size.1 as nat) + "), name='"@ + name + "')("@ + from + ")"@
        },
        NodeType::FlattenLayer => {
            let name = "flatten_"@ + decimal(index);
            "    "@ + name + " = layers.Flatten(name='"@ + name + "')("@ + from + ")"@
        },
        NodeType::OutputLayer { units, activation } => {
            "    output = layers.Dense("@ + decimal(units as nat) + ", activation='"@ + activation@
                + "')("@ + from + ")"@
        },
    }
}

/// The lines that open the generated code.
pub open spec fn opening() -> Seq<Seq<char>> {
    seq!["def create_model(input_shape):"@, "    # Input layer"@]
}

/// The lines that close the generated code: the end of the model's
/// definition, and the definitions that compile and train it.
pub open spec fn closing() -> Seq<Seq<char>> {
    seq![
        "    model = Model(inputs=input, outputs=output, name='generated_model')"@,
        "    return model"@,
        ""@,
        "def compile_model(model, optimizer='adam', loss='sparse_categorical_crossentropy', metrics=['accuracy']):"@,
        "    model.compile(optimizer=optimizer, loss=loss, metrics=metrics)"@,
        "    return model"@,
        "\ndef train_model(model, X_train, y_train, X_val=None, y_val=None, epochs=10, batch_size=32, callbacks=None):"@,
        "    history = model.fit("@,
        "        X_train, y_train,"@,
        "        validation_data=(X_val, y_val) if X_val is not None and y_val is not None else None,"@,
        "        epochs=epochs,"@,
        "        batch_size=batch_size,"@,
        "        callbacks=callbacks,"@,
        "        verbose=1"@,
        "    )"@,
        "    return history"@,
    ]
}

/// The lines of code for the first `count` layers, one line each, every
/// layer fed from the layer before it.
pub open spec fn layer_lines(nodes: Seq<Node>, count: nat) -> Seq<Seq<char>>
    decreases count,
{
    if count == 0 {
        Seq::empty()
    } else {
        layer_lines(nodes, (count - 1) as nat).push(
            layer_line(nodes[count - 1], (count - 1) as nat, feeding(nodes, (count - 1) as nat)),
        )
    }
}

/// The lines of the code generated for the layers `nodes`.
pub open spec fn code_lines(nodes: Seq<Node>) -> Seq<Seq<char>> {
    opening() + layer_lines(nodes, nodes.len()) + closing()
}

/// The summary of a model of `count` layers.
pub open spec fn summary(count: nat) -> Seq<char> {
    "Generated model with "@ + decimal(count) + " layers"@
}

/// The packages that the generated code needs.
pub open spec fn requirements() -> Seq<Seq<char>> {
    seq!["tensorflow>=2.0.0"@, "numpy>=1.19.0"@]
}

/// The decimal digit of `d`.
fn digit_str(d: u64) -> (text: &'static str)
    requires
        d < 10,
    ensures
        text@ == digit(d as nat),
{
    if d == 0 {
        "0"
    } else if d == 1 {
        "1"
    } else if d == 2 {
        "2"
    } else if d == 3 {
        "3"
    } else if d == 4 {
        "4"
    } else if d == 5 {
        "5"
    } else if d == 6 {
        "6"
    } else if d == 7 {
        "7"
    } else if d == 8 {
        "8"
    } else {
        "9"
    }
}

/// `n` written in decimal, without leading zeros.
pub fn decimal_string(n: u64) -> (text: String)
    ensures
        text@ == decimal(n as nat),
    decreases n,
{
    if n < 10 {
        String::from_str(digit_str(n))
    } else {
        let mut text = decimal_string(n / 10);
        text.append(digit_str(n % 10));
        text
    }
}

/// `lines` with a line feed between each two of them.
pub fn join_lines(lines: &Vec<String>) -> (text: String)
    ensures
        text@ == joined(texts(lines@)),
{
    let mut text = String::new();
    if lines.len() == 0 {
        return text;
    }
    text.append(lines[0].as_str());
    let mut i: usize = 1;
    proof {
        assert(texts(lines@).take(1).len() == 1);
        assert(text@ =~= texts(lines@).take(1)[0]);
    }
    while i < lines.len()
        invariant
            1 <= i <= lines.len(),
            text@ == joined(texts(lines@).take(i as int)),
        decreases lines.len() - i,
    {
        proof {
            assert(texts(lines@).take(i + 1).drop_last() =~= texts(lines@).take(i as int));
            assert(texts(lines@).take(i + 1).last() == lines@[i as int]@);
        }
        text.append("\n");
        text.append(lines[i].as_str());
        i += 1;
    }
    proof {
        assert(texts(lines@).take(i as int) =~= texts(lines@));
    }
    text
}

/// Appends `first`, `second` and `third` to `text`, in that order.
fn append_all(text: &mut String, first: &str, second: &str, third: &str)
    ensures
        final(text)@ == old(text)@ + first@ + second@ + third@,
{
    text.append(first);
    text.append(second);
    text.append(third);
}

/// The line of code for the layer `node`, the `index`-th of the graph, fed
/// from the layer named `from`.
fn write_layer(node: &Node, index: usize, from: &str) -> (line: String)
    ensures
        line@ == layer_line(*node, index as nat, from@),
{
    let number = decimal_string(index as u64);
    let mut line = String::from_str("    ");
    match &node.node_type {
        NodeType::InputLayer => {
            line.append(from);
            line.append(" = layers.Input(shape=input_shape, name='input')");
        },
        NodeType::DenseLayer { units, activation } => {
            let name = String::from_str("dense_").concat(number.as_str());
            let units = decimal_string(*units as u64);
            append_all(&mut line, name.as_str(), " = layers.Dense(", units.as_str());
            append_all(&mut line, ", activation='", activation.as_str(), "')(");
            line.append(from);
            line.append(")");
        },
        NodeType::DropoutLayer { rate } => {
            let name = String::from_str("dropout_").concat(number.as_str());
            append_all(&mut line, name.as_str(), " = layers.Dropout(", rate.as_str());
            append_all(&mut line, ", name='", name.as_str(), "')(");
            line.append(from);
            line.append(")");
        },
        NodeType::Conv2DLayer { filters, kernel_size, activation } => {
            let name = String::from_str("conv2d_").concat(number.as_str());
            let filters = decimal_string(*filters as u64);
            let height = decimal_string(kernel_size.0 as u64);
            let width = decimal_string(kernel_size.1 as u64);
            append_all(&mut line, name.as_str(), " = layers.Conv2D(", filters.as_str());
            append_all(&mut line, ", kernel_size=(", height.as_str(), ", ");
            append_all(&mut line, width.as_str(), "), activation='", activation.as_str());
            append_all(&mut line, "', padding='same', name='", name.as_str(), "')(");
            line.append(from);
            line.append(")");
        },
        NodeType::MaxPooling2DLayer { pool_size } => {
            let name = String::from_str("maxpool_").concat(number.as_str());
            let height = decimal_string(pool_size.0 as u64);
            let width = decimal_string(pool_size.1 as u64);
            append_all(&mut line, name.as_str(), " = layers.MaxPooling2D(pool_size=(", height.as_str());
            append_all(&mut line, ", ", width.as_str(), "), name='");
            append_all(&mut line, name.as_str(), "')(", from);
            line.append(")");
        },
        NodeType::FlattenLayer => {
            let name = String::from_str("flatten_").concat(number.as_str());
            append_all(&mut line, name.as_str(), " = layers.Flatten(name='", name.as_str());
            append_all(&mut line, "')(", from, ")");
        },
        NodeType::OutputLayer { units, activation } => {
            let units = decimal_string(*units as u64);
            line = String::from_str("    output = layers.Dense(");
            append_all(&mut line, units.as_str(), ", activation='", activation.as_str());
            append_all(&mut line, "')(", from, ")");
        },
    }
    line
}

/// The name under which the code holds the layer `node`, the `index`-th of
/// the graph, or `None` for an input layer.
fn name_layer(node: &Node, index: usize) -> (name: Option<String>)
    ensures
        match name {
            Some(text) => layer_name(*node, index as nat) == Some(text@),
            None => layer_name(*node, index as nat) is None,
        },
{
    let number = decimal_string(index as u64);
    match &node.node_type {
        NodeType::InputLayer => None,
        NodeType::DenseLayer { .. } => Some(String::from_str("dense_").concat(number.as_str())),
        NodeType::DropoutLayer { .. } => Some(String::from_str("dropout_").concat(number.as_str())),
        NodeType::Conv2DLayer { .. } => Some(String::from_str("conv2d_").concat(number.as_str())),
        NodeType::MaxPooling2DLayer { .. } => Some(
            String::from_str("maxpool_").concat(number.as_str()),
        ),
        NodeType::FlattenLayer => Some(String::from_str("flatten_").concat(number.as_str())),
        NodeType::OutputLayer { .. } => Some(String::from_str("output")),
    }
}

/// Pushes each line of `lines` onto `code`.
fn push_lines(code: &mut Vec<String>, lines: &[&'static str])
    ensures
        texts(final(code)@) == texts(old(code)@) + lines@.map_values(|line: &'static str| line@),
{
    let mut i: usize = 0;
    let ghost views = lines@.map_values(|line: &'static str| line@);
    assert(texts(code@) =~= texts(old(code)@) + views.take(0));
    while i < lines.len()
        invariant
            i <= lines.len(),
            views == lines@.map_values(|line: &'static str| line@),
            texts(code@) == texts(old(code)@) + views.take(i as int),
        decreases lines.len() - i,
    {
        let ghost before = texts(code@);
        code.push(String::from_str(lines[i]));
        proof {
            assert(texts(code@) =~= before.push(lines@[i as int]@));
            assert(views.take(i + 1) =~= views.take(i as int).push(views[i as int]));
            assert(texts(code@) =~= texts(old(code)@) + views.take(i + 1));
        }
        i += 1;
    }
    assert(views.take(i as int) =~= views);
}

impl ModelBuilder {
    /// Generates the code of the model from the layers of the graph, in
    /// their order, each fed from the one before it. The graph is not
    /// checked here.
    pub fn generate_keras_model(&self, graph: &ModelGraph) -> (model: GeneratedModel)
        ensures
            model.code@ == joined(code_lines(graph.nodes@)),
            texts(model.requirements@) == requirements(),
            model.model_summary@ == summary(graph.nodes@.len()),
    {
        let mut code: Vec<String> = Vec::new();
        push_lines(&mut code, &["def create_model(input_shape):", "    # Input layer"]);
        assert(texts(code@) =~= opening());
        let mut last_layer = String::from_str("input");
        let mut i: usize = 0;
        while i < graph.nodes.len()
            invariant
                i <= graph.nodes.len(),
                last_layer@ == feeding(graph.nodes@, i as nat),
                texts(code@) == opening() + layer_lines(graph.nodes@, i as nat),
            decreases graph.nodes.len() - i,
        {
            let node = &graph.nodes[i];
            let line = write_layer(node, i, last_layer.as_str());
            let ghost before = texts(code@);
            code.push(line);
            proof {
                assert(texts(code@) =~= before.push(line@));
                assert(texts(code@) =~= opening() + layer_lines(graph.nodes@, (i + 1) as nat));
            }
            match &node.node_type {
                NodeType::InputLayer => {},
                NodeType::OutputLayer { .. } => {},
                _ => {
                    match name_layer(node, i) {
                        Some(name) => {
                            last_layer = name;
                        },
                        None => {},
                    }
                },
            }
            i += 1;
        }
        let ghost layers = texts(code@);
        push_lines(
            &mut code,
            &[
                "    model = Model(inputs=input, outputs=output, name='generated_model')",
                "    return model",
                "",
                "def compile_model(model, optimizer='adam', loss='sparse_categorical_crossentropy', metrics=['accuracy']):",
                "    model.compile(optimizer=optimizer, loss=loss, metrics=metrics)",
                "    return model",
                "\ndef train_model(model, X_train, y_train, X_val=None, y_val=None, epochs=10, batch_size=32, callbacks=None):",
                "    history = model.fit(",
                "        X_train, y_train,",
                "        validation_data=(X_val, y_val) if X_val is not None and y_val is not None else None,",
                "        epochs=epochs,",
                "        batch_size=batch_size,",
                "        callbacks=callbacks,",
                "        verbose=1",
                "    )",
                "    return history",
            ],
        );
        assert(texts(code@) =~= code_lines(graph.nodes@));
        let mut requirements: Vec<String> = Vec::new();
        push_lines(&mut requirements, &["tensorflow>=2.0.0", "numpy>=1.19.0"]);
        assert(texts(requirements@) =~= self::requirements());
        let count = decimal_string(graph.nodes.len() as u64);
        let mut model_summary = String::from_str("Generated model with ");
        model_summary.append(count.as_str());
        model_summary.append(" layers");
        GeneratedModel { code: join_lines(&code), requirements, model_summary }
    }

    /// Checks the graph and generates the code of its model. The error is
    /// that of [`ModelBuilder::validate_graph`]; a graph that passes always
    /// gives a model.
    pub fn generate_model(&self, graph: &ModelGraph) -> (result: Result<GeneratedModel, GraphError>)
        ensures
            match result {
                Ok(model) => {
                    &&& fault(*graph) is None
                    &&& model.code@ == joined(code_lines(graph.nodes@))
                    &&& texts(model.requirements@) == requirements()
                    &&& model.model_summary@ == summary(graph.nodes@.len())
                },
                Err(e) => fault(*graph) == Some(e@),
            },
    {
        match self.validate_graph(graph) {
            Ok(_) => Ok(self.generate_keras_model(graph)),
            Err(e) => Err(e),
        }
    }
}

} // verus!
