use collab_engine::python::notebook_cell_script;

#[test]
fn the_script_names_the_notebook_and_the_cell() {
    let expected = format!(
        r#"
import json
from jupyter_client import KernelManager
import time

# Create a kernel manager
km = KernelManager()
km.start_kernel()

# Get the client
kc = km.client()
kc.start_channels()

# Load the notebook
with open('{}', 'r') as f:
    notebook = json.load(f)

# Get the cell to execute
cell = notebook['cells'][{}]

# Execute the cell
msg_id = kc.execute(cell['source'])

# Get the result
outputs = []
while True:
    try:
        msg = kc.get_iopub_msg(timeout=1)
        if msg['parent_header'].get('msg_id') == msg_id:
            if msg['msg_type'] == 'status' and msg['content']['execution_state'] == 'idle':
                break
            if 'data' in msg['content']:
                outputs.append(msg['content']['data']['text/plain'])
    except Exception as e:
        break

# Clean up
kc.stop_channels()
km.shutdown_kernel()

# Return the outputs as a string
print('\n'.join(outputs))
"#,
        "notebooks/analysis.ipynb", 12
    );
    assert_eq!(notebook_cell_script("notebooks/analysis.ipynb", 12), expected);
    assert!(notebook_cell_script("a", 0).contains("cell = notebook['cells'][0]\n"));
}
