# penGui

An immediate-mode user-interface library: each frame, the user code builds
the interface again, and widgets built at the same place keep their state
from one frame to the next.

## Layout

- `src/` is the verified core, written in Verus:
  - `children`: the bookkeeping of the children of containers between
    frames (a list for windows, rows and the window handler, a slot for
    single-child containers), with the frame law: after a frame, a container
    holds exactly the children built during it, in build order, and a child
    built again keeps its node;
  - `component_id`: identifiers of widgets, from code locations and types;
  - `layout`: layout objectives and the status lattice;
  - `events`, `controls`, `text`: input state, button and check box state,
    text edition;
  - `frame_counter`, `global_container`: small widgets;
  - `draw`, `render`: texture identifiers, draw modes, text index buffers,
    and the rasterization and texture decisions of the rendering backend.
- `tests/` runs the verified core on concrete values.
- `app/` holds what works on floating-point geometry, shared nodes and the
  GPU: the widget tree, the widgets' layout and drawing, and the `glium` and
  `rusttype` backends.
